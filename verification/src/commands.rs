//! The command registry: named commands dispatched to their handlers.
//!
//! The host executes a command by calling one fixed entry point with the
//! command's name. A [`CommandRegistry`] stands behind that entry point. It
//! maps each name to at most one handler, and it declares each name to the
//! host once, when the name is first registered.
//!
//! What a second registration under a name that has a handler does is chosen
//! when the registry is created: under [`DuplicatePolicy::Replace`] the new
//! handler silently takes the place of the old one, under
//! [`DuplicatePolicy::Reject`] the registration is refused until the old one
//! has been disposed of. In neither case does the host hear of the name a
//! second time. A disposer removes whatever handler its name has at the time,
//! so after a replacement the disposer of the first registration removes the
//! second handler.

use crate::sharing::share;
use std::rc::Rc;
use vstd::hash_map::StringHashMap;
use vstd::hash_set::StringHashSet;
use vstd::prelude::*;

verus! {

/// What happens when a handler is registered under a name that already has
/// one.
#[derive(Clone, Copy, PartialEq, Eq, Structural, Debug)]
pub enum DuplicatePolicy {
    /// The new handler takes the place of the old one.
    Replace,
    /// The registration is refused and the old handler stays.
    Reject,
}

/// Why a registration was refused.
#[derive(Clone, Copy, PartialEq, Eq, Structural, Debug)]
pub enum CommandError {
    /// The name already has a handler and the registry rejects duplicates.
    AlreadyRegistered,
}

/// Abstract state of a command registry over handlers of type `H`.
#[verifier::ext_equal]
#[verifier::reject_recursive_types(H)]
pub struct CommandTable<H> {
    /// The handler of each registered name.
    pub handlers: Map<Seq<char>, H>,
    /// The names that were declared to the host, in the order of declaration.
    pub declared: Seq<Seq<char>>,
}

impl<H> CommandTable<H> {
    /// The table as it is constructed: nothing registered, nothing declared.
    pub open spec fn empty() -> Self {
        CommandTable { handlers: Map::empty(), declared: Seq::empty() }
    }

    /// What holds of every table that was reached from `empty()`: no name was
    /// declared to the host twice, and every registered name was declared.
    pub open spec fn inv(self) -> bool {
        &&& self.declared.no_duplicates()
        &&& forall|name: Seq<char>| #[trigger]
            self.handlers.contains_key(name) ==> self.declared.contains(name)
    }

    /// Whether registering under `name` is accepted.
    pub open spec fn accepts(self, name: Seq<char>, policy: DuplicatePolicy) -> bool {
        policy == DuplicatePolicy::Replace || !self.handlers.contains_key(name)
    }

    /// Whether registering under `name` declares the name to the host.
    pub open spec fn declares(self, name: Seq<char>, policy: DuplicatePolicy) -> bool {
        self.accepts(name, policy) && !self.declared.contains(name)
    }

    /// The table after an attempt to register `handler` under `name`. An
    /// accepted registration sets the handler of `name`, and declares the
    /// name if the host has not heard of it. A refused one changes nothing.
    pub open spec fn register(self, name: Seq<char>, handler: H, policy: DuplicatePolicy) -> Self {
        if self.accepts(name, policy) {
            CommandTable {
                handlers: self.handlers.insert(name, handler),
                declared: if self.declared.contains(name) {
                    self.declared
                } else {
                    self.declared.push(name)
                },
            }
        } else {
            self
        }
    }

    /// The table after the registration under `name` has been disposed of.
    /// The host keeps its declaration.
    pub open spec fn unregister(self, name: Seq<char>) -> Self {
        CommandTable { handlers: self.handlers.remove(name), declared: self.declared }
    }

    /// The handler that the command `name` is dispatched to, if any.
    pub open spec fn lookup(self, name: Seq<char>) -> Option<H> {
        if self.handlers.contains_key(name) {
            Some(self.handlers[name])
        } else {
            None
        }
    }
}

/// Registering keeps the invariant. An accepted registration makes its
/// handler the one that the name is dispatched to and leaves every other name
/// as it was; the host hears of a name at most once.
pub proof fn law_register<H>(table: CommandTable<H>, name: Seq<char>, handler: H, policy: DuplicatePolicy)
    requires
        table.inv(),
    ensures
        table.register(name, handler, policy).inv(),
        table.accepts(name, policy) ==> table.register(name, handler, policy).lookup(name) == Some(
            handler,
        ),
        !table.accepts(name, policy) ==> table.register(name, handler, policy) == table,
        forall|other: Seq<char>|
            other != name ==> table.register(name, handler, policy).lookup(other) == table.lookup(
                other,
            ),
        table.register(name, handler, policy).declared.len() == table.declared.len() + if table.declares(
            name,
            policy,
        ) {
            1nat
        } else {
            0nat
        },
{
    let after = table.register(name, handler, policy);
    if table.accepts(name, policy) {
        if !table.declared.contains(name) {
            assert(after.declared.last() == name);
            assert forall|i: int, j: int|
                0 <= i < after.declared.len() && 0 <= j < after.declared.len() && i != j implies after.declared[i]
                != after.declared[j] by {
                if i < table.declared.len() {
                    assert(table.declared[i] == after.declared[i]);
                    assert(table.declared.contains(after.declared[i]));
                }
                if j < table.declared.len() {
                    assert(table.declared[j] == after.declared[j]);
                    assert(table.declared.contains(after.declared[j]));
                }
            }
        }
        assert forall|other: Seq<char>| #[trigger]
            after.handlers.contains_key(other) implies after.declared.contains(other) by {
            if other == name {
                if table.declared.contains(name) {
                } else {
                    assert(after.declared[after.declared.len() - 1] == name);
                }
            } else {
                assert(table.handlers.contains_key(other));
                let i = table.declared.index_of(other);
                assert(after.declared[i] == other);
            }
        }
    }
}

/// Disposing of a registration keeps the invariant, leaves the name without
/// a handler and every other name as it was, and is idempotent.
pub proof fn law_unregister<H>(table: CommandTable<H>, name: Seq<char>)
    requires
        table.inv(),
    ensures
        table.unregister(name).inv(),
        table.unregister(name).lookup(name) == None::<H>,
        forall|other: Seq<char>|
            other != name ==> table.unregister(name).lookup(other) == table.lookup(other),
        table.unregister(name).unregister(name) == table.unregister(name),
{
    let after = table.unregister(name);
    assert forall|other: Seq<char>| #[trigger]
        after.handlers.contains_key(other) implies after.declared.contains(other) by {
        assert(table.handlers.contains_key(other));
    }
    assert(after.unregister(name).handlers =~= after.handlers);
}

/// What a registrant receives: the means to end its registration. It names
/// the command and is applied to the registry that issued it.
pub struct CommandDisposer {
    command: String,
}

impl CommandDisposer {
    /// The name of the command whose registration this disposer ends.
    pub closed spec fn command(&self) -> Seq<char> {
        self.command@
    }

    /// Removes the handler of the command from `registry`, if it has one.
    /// Invoking a disposer again changes nothing.
    pub fn dispose<H: Fn(), N: Fn(&str)>(&self, registry: &mut CommandRegistry<H, N>)
        requires
            old(registry).wf(),
        ensures
            final(registry).wf(),
            final(registry)@ == old(registry)@.unregister(self.command()),
            final(registry).policy() == old(registry).policy(),
            final(registry).declare_fn() == old(registry).declare_fn(),
    {
        registry.unregister_command(self.command.as_str());
    }
}

/// The handlers that the pointers of `shared` point to.
pub open spec fn as_handlers<H>(shared: Map<Seq<char>, Rc<H>>) -> Map<Seq<char>, H> {
    Map::new(|name: Seq<char>| shared.contains_key(name), |name: Seq<char>| *shared[name])
}

/// A table of command handlers of type `H`, bound to the procedure of type
/// `N` by which a command name is declared to the host.
#[verifier::reject_recursive_types(H)]
pub struct CommandRegistry<H, N> {
    handlers: StringHashMap<Rc<H>>,
    known: StringHashSet,
    declare: N,
    policy: DuplicatePolicy,
    declared: Ghost<Seq<Seq<char>>>,
}

impl<H, N> View for CommandRegistry<H, N> {
    type V = CommandTable<H>;

    closed spec fn view(&self) -> CommandTable<H> {
        CommandTable { handlers: as_handlers(self.handlers@), declared: self.declared@ }
    }
}

impl<H: Fn(), N: Fn(&str)> CommandRegistry<H, N> {
    /// The policy on duplicate names that the registry was created with.
    pub closed spec fn policy(&self) -> DuplicatePolicy {
        self.policy
    }

    /// The procedure that declares a command name to the host.
    pub closed spec fn declare_fn(&self) -> N {
        self.declare
    }

    /// The names that the registry remembers as declared are those of the
    /// model.
    pub closed spec fn remembers_declared(&self) -> bool {
        self.known@ == self.declared@.to_set()
    }

    /// The registry is in a state that its operations produce: the model's
    /// invariant holds, every handler may be invoked, and any name may be
    /// declared to the host.
    pub open spec fn wf(&self) -> bool {
        &&& self@.inv()
        &&& self.remembers_declared()
        &&& forall|name: Seq<char>| #[trigger]
            self@.handlers.contains_key(name) ==> call_requires(self@.handlers[name], ())
        &&& forall|name: &str| #[trigger] call_requires(self.declare_fn(), (name,))
    }

    /// Creates a registry without commands. The procedure is stored, not
    /// invoked.
    pub fn new(declare: N, policy: DuplicatePolicy) -> (registry: Self)
        requires
            forall|name: &str| #[trigger] call_requires(declare, (name,)),
        ensures
            registry.wf(),
            registry@ == CommandTable::<H>::empty(),
            registry.policy() == policy,
            registry.declare_fn() == declare,
    {
        let registry = CommandRegistry {
            handlers: StringHashMap::new(),
            known: StringHashSet::new(),
            declare,
            policy,
            declared: Ghost(Seq::empty()),
        };
        assert(registry.known@ =~= registry.declared@.to_set());
        assert(registry@.handlers =~= Map::<Seq<char>, H>::empty());
        registry
    }

    /// Registers `callback` as the handler of `command`. A name without a
    /// handler is always accepted; a name that has one is accepted under
    /// `Replace` and refused with `AlreadyRegistered` under `Reject`. A name
    /// that the host has not heard of is declared to it. The disposer that is
    /// returned removes the handler of this name.
    pub fn register_command(&mut self, command: &str, callback: H) -> (outcome: Result<
        CommandDisposer,
        CommandError,
    >)
        requires
            old(self).wf(),
            call_requires(callback, ()),
        ensures
            final(self).wf(),
            final(self)@ == old(self)@.register(command@, callback, old(self).policy()),
            final(self).policy() == old(self).policy(),
            final(self).declare_fn() == old(self).declare_fn(),
            outcome is Ok <==> old(self)@.accepts(command@, old(self).policy()),
            outcome matches Ok(disposer) ==> disposer.command() == command@,
            outcome matches Err(error) ==> error == CommandError::AlreadyRegistered,
            old(self)@.declares(command@, old(self).policy()) ==> call_ensures(
                old(self).declare_fn(),
                (command,),
                (),
            ),
    {
        let ghost before = self@;
        proof {
            law_register(before, command@, callback, self.policy);
            assert(call_requires(self.declare_fn(), (command,)));
        }
        if self.policy == DuplicatePolicy::Reject && self.handlers.contains_key(command) {
            return Err(CommandError::AlreadyRegistered);
        }
        self.handlers.insert(command.to_owned(), Rc::new(callback));
        proof {
            assert(self@.handlers =~= before.handlers.insert(command@, callback));
            assert forall|name: Seq<char>| #[trigger]
                self@.handlers.contains_key(name) implies call_requires(self@.handlers[name], ()) by {
                if name != command@ {
                    assert(before.handlers.contains_key(name));
                }
            }
        }
        if !self.known.contains(command) {
            (self.declare)(command);
            self.known.insert(command.to_owned());
            proof {
                self.declared@ = self.declared@.push(command@);
                assert(self.known@ =~= self.declared@.to_set()) by {
                    let log = self.declared@;
                    assert forall|name: Seq<char>| #[trigger]
                        log.contains(name) <==> (before.declared.contains(name) || name
                            == command@) by {
                        if before.declared.contains(name) {
                            let i = before.declared.index_of(name);
                            assert(log[i] == name);
                        }
                        if name == command@ {
                            assert(log[log.len() - 1] == name);
                        }
                        if log.contains(name) {
                            let i = log.index_of(name);
                            if i < before.declared.len() {
                                assert(before.declared[i] == name);
                            }
                        }
                    }
                }
            }
        }
        Ok(CommandDisposer { command: command.to_owned() })
    }

    /// Removes the handler of `command`, if it has one. The host keeps its
    /// declaration of the name.
    pub fn unregister_command(&mut self, command: &str)
        requires
            old(self).wf(),
        ensures
            final(self).wf(),
            final(self)@ == old(self)@.unregister(command@),
            final(self).policy() == old(self).policy(),
            final(self).declare_fn() == old(self).declare_fn(),
    {
        let ghost before = self@;
        proof {
            law_unregister(before, command@);
        }
        self.handlers.remove(command);
        proof {
            assert(self@.handlers =~= before.handlers.remove(command@));
            assert forall|name: Seq<char>| #[trigger]
                self@.handlers.contains_key(name) implies call_requires(self@.handlers[name], ()) by {
                assert(before.handlers.contains_key(name));
            }
            assert forall|name: &str| #[trigger] call_requires(self.declare_fn(), (name,)) by {
                assert(call_requires(old(self).declare_fn(), (name,)));
            }
        }
    }

    /// The handler that `command` is dispatched to, if it has one. The
    /// caller shares it with the registry, and may invoke it after the
    /// registry has changed.
    pub fn handler(&self, command: &str) -> (found: Option<Rc<H>>)
        ensures
            match found {
                Some(handler) => self@.lookup(command@) == Some(*handler),
                None => self@.lookup(command@) == None::<H>,
            },
    {
        match self.handlers.get(command) {
            Some(handler) => Some(share(handler)),
            None => None,
        }
    }

    /// Executes `command`: its handler is invoked once, without arguments.
    /// A name without a handler is ignored.
    pub fn execute_command(&self, command: &str)
        requires
            self.wf(),
        ensures
            self@.lookup(command@) matches Some(handler) ==> call_ensures(handler, (), ()),
    {
        match self.handlers.get(command) {
            Some(shared) => {
                let handler: &H = shared;
                assert(self@.handlers.contains_key(command@));
                handler();
            },
            None => {},
        }
    }
}

} // verus!
