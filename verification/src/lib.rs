//! Verified building blocks for a guest that extends an editor from inside a
//! WebAssembly component.
//!
//! The host delivers each kind of event through one fixed entry point. The
//! registries of this crate stand behind those entry points:
//!
//! - [`emitter::EventEmitter`] fans one event out to many listeners and tells
//!   the host when the first listener arrives and when the last one leaves.
//!   Its behaviour is defined by the model in [`subscription`], whose laws are
//!   proved there.
//! - [`commands::CommandRegistry`] dispatches a named command to its handler
//!   and declares each name to the host once.
//! - [`disposables::Disposables`] collects disposers and invokes them together.
//! - [`calculator`] holds the arithmetic of the calculator examples.
//!
//! Registries are plain values. An embedding that needs one instance per
//! event kind for the lifetime of the module owns that instance itself, and
//! reaches it from a single thread.

pub mod calculator;
pub mod commands;
pub mod disposables;
pub mod emitter;
pub mod handle_set;
mod sharing;
pub mod subscription;
