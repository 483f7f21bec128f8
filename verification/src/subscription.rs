//! The mathematical model of a subscription registry, and the laws it obeys.
//!
//! A registry is described by the handles of its live listeners in the order
//! in which they subscribed, the listeners themselves in the same order, the
//! next handle it will issue, and how often it has signalled the host to start
//! (`hook`) and to stop (`unhook`) delivering events. The executable
//! [`EventEmitter`](crate::emitter::EventEmitter) is specified by the
//! transitions defined here.

use vstd::prelude::*;

verus! {

/// Abstract state of a subscription registry over listeners of type `L`.
#[verifier::ext_equal]
pub struct Registry<L> {
    /// Handles of the live listeners, oldest subscription first.
    pub handles: Seq<nat>,
    /// The live listeners; `listeners[i]` was subscribed under `handles[i]`.
    pub listeners: Seq<L>,
    /// The handle that the next subscription receives.
    pub next_handle: nat,
    /// Number of times the host was asked to start delivering events.
    pub hook_calls: nat,
    /// Number of times the host was asked to stop delivering events.
    pub unhook_calls: nat,
}

/// One step of a registry's life.
pub enum Action<L> {
    /// A listener subscribes.
    Subscribe(L),
    /// The disposer of the subscription with this handle is invoked.
    Dispose(nat),
}

impl<L> Registry<L> {
    /// The registry as it is constructed: no listeners, nothing signalled.
    pub open spec fn empty() -> Self {
        Registry {
            handles: Seq::empty(),
            listeners: Seq::empty(),
            next_handle: 1,
            hook_calls: 0,
            unhook_calls: 0,
        }
    }

    /// Whether at least one listener is subscribed.
    pub open spec fn is_active(self) -> bool {
        self.handles.len() > 0
    }

    /// Whether `handle` belongs to a live listener.
    pub open spec fn is_live(self, handle: nat) -> bool {
        self.handles.contains(handle)
    }

    /// What holds of every registry that was reached from `empty()`:
    /// handles and listeners line up, no handle is live twice, every live
    /// handle was issued before `next_handle`, and the host has been asked to
    /// start once more than to stop exactly while a listener is subscribed.
    pub open spec fn inv(self) -> bool {
        &&& self.handles.len() == self.listeners.len()
        &&& self.handles.no_duplicates()
        &&& forall|i: int| 0 <= i < self.handles.len() ==> 1 <= #[trigger] self.handles[i] < self.next_handle
        &&& 1 <= self.next_handle
        &&& self.hook_calls == self.unhook_calls + if self.is_active() { 1nat } else { 0nat }
    }

    /// The registry after `listener` has subscribed. It receives the handle
    /// `self.next_handle` and is placed last; the host is asked to start
    /// delivering exactly when no listener was subscribed before.
    pub open spec fn subscribe(self, listener: L) -> Self {
        Registry {
            handles: self.handles.push(self.next_handle),
            listeners: self.listeners.push(listener),
            next_handle: self.next_handle + 1,
            hook_calls: if self.is_active() { self.hook_calls } else { self.hook_calls + 1 },
            unhook_calls: self.unhook_calls,
        }
    }

    /// The registry after the subscription `handle` has been disposed of. A
    /// live handle leaves together with its listener, the others keep their
    /// order, and the host is asked to stop exactly when the last listener
    /// left. A handle that is not live changes nothing.
    pub open spec fn dispose(self, handle: nat) -> Self {
        if self.is_live(handle) {
            let index = self.handles.index_of(handle);
            Registry {
                handles: self.handles.remove(index),
                listeners: self.listeners.remove(index),
                next_handle: self.next_handle,
                hook_calls: self.hook_calls,
                unhook_calls: if self.handles.len() == 1 {
                    self.unhook_calls + 1
                } else {
                    self.unhook_calls
                },
            }
        } else {
            self
        }
    }

    /// The registry after one action.
    pub open spec fn step(self, action: Action<L>) -> Self {
        match action {
            Action::Subscribe(listener) => self.subscribe(listener),
            Action::Dispose(handle) => self.dispose(handle),
        }
    }

    /// The registry after a sequence of actions, applied first to last.
    pub open spec fn run(self, actions: Seq<Action<L>>) -> Self
        decreases actions.len(),
    {
        if actions.len() == 0 {
            self
        } else {
            self.run(actions.drop_last()).step(actions.last())
        }
    }

    /// How often, while `actions` are applied to `self`, the registry goes
    /// from having no listener to having one.
    pub open spec fn activations(self, actions: Seq<Action<L>>) -> nat
        decreases actions.len(),
    {
        if actions.len() == 0 {
            0
        } else {
            let before = self.run(actions.drop_last());
            let after = before.step(actions.last());
            self.activations(actions.drop_last()) + if !before.is_active() && after.is_active() {
                1nat
            } else {
                0nat
            }
        }
    }

    /// How often, while `actions` are applied to `self`, the registry goes
    /// from having a listener to having none.
    pub open spec fn deactivations(self, actions: Seq<Action<L>>) -> nat
        decreases actions.len(),
    {
        if actions.len() == 0 {
            0
        } else {
            let before = self.run(actions.drop_last());
            let after = before.step(actions.last());
            self.deactivations(actions.drop_last()) + if before.is_active() && !after.is_active() {
                1nat
            } else {
                0nat
            }
        }
    }
}

/// The empty registry satisfies the invariant.
pub proof fn law_empty_is_valid<L>()
    ensures
        Registry::<L>::empty().inv(),
        !Registry::<L>::empty().is_active(),
{
}

/// Subscribing keeps the invariant, issues a handle that was never live
/// before, places the listener behind all earlier ones, which keep their
/// places, and asks the host to start exactly on the transition from zero
/// listeners to one.
pub proof fn law_subscribe<L>(registry: Registry<L>, listener: L)
    requires
        registry.inv(),
    ensures
        registry.subscribe(listener).inv(),
        registry.subscribe(listener).is_active(),
        !registry.is_live(registry.next_handle),
        registry.subscribe(listener).is_live(registry.next_handle),
        registry.subscribe(listener).listeners.last() == listener,
        forall|i: int|
            0 <= i < registry.listeners.len() ==> {
                &&& registry.subscribe(listener).handles[i] == registry.handles[i]
                &&& registry.subscribe(listener).listeners[i] == registry.listeners[i]
            },
        registry.subscribe(listener).hook_calls == registry.hook_calls + if registry.is_active() {
            0nat
        } else {
            1nat
        },
        registry.subscribe(listener).unhook_calls == registry.unhook_calls,
{
    let after = registry.subscribe(listener);
    assert(after.handles.last() == registry.next_handle);
    assert(after.handles[after.handles.len() - 1] == registry.next_handle);
    if registry.is_live(registry.next_handle) {
        let i = registry.handles.index_of(registry.next_handle);
        assert(registry.handles[i] < registry.next_handle);
    }
    assert forall|i: int, j: int|
        0 <= i < after.handles.len() && 0 <= j < after.handles.len() && i != j implies after.handles[i]
        != after.handles[j] by {
        if i < registry.handles.len() {
            assert(after.handles[i] == registry.handles[i]);
        }
        if j < registry.handles.len() {
            assert(after.handles[j] == registry.handles[j]);
        }
    }
    assert forall|i: int| 0 <= i < after.handles.len() implies 1 <= #[trigger] after.handles[i]
        < after.next_handle by {
        if i < registry.handles.len() {
            assert(after.handles[i] == registry.handles[i]);
        }
    }
}

/// Disposing keeps the invariant, removes exactly the disposed handle, leaves
/// the other listeners in their order, and asks the host to stop exactly on
/// the transition from one listener to zero.
pub proof fn law_dispose<L>(registry: Registry<L>, handle: nat)
    requires
        registry.inv(),
    ensures
        registry.dispose(handle).inv(),
        !registry.dispose(handle).is_live(handle),
        forall|other: nat|
            other != handle ==> (registry.dispose(handle).is_live(other) <==> registry.is_live(
                other,
            )),
        registry.dispose(handle).next_handle == registry.next_handle,
        registry.dispose(handle).hook_calls == registry.hook_calls,
        registry.dispose(handle).unhook_calls == registry.unhook_calls + if registry.is_live(handle)
            && registry.handles.len() == 1 {
            1nat
        } else {
            0nat
        },
{
    let after = registry.dispose(handle);
    if registry.is_live(handle) {
        let index = registry.handles.index_of(handle);
        assert(0 <= index < registry.handles.len() && registry.handles[index] == handle);
        assert forall|i: int| 0 <= i < after.handles.len() implies #[trigger] after.handles[i]
            == registry.handles[if i < index {
            i
        } else {
            i + 1
        }] by {}
        assert(after.handles.no_duplicates());
        if after.is_live(handle) {
            let k = after.handles.index_of(handle);
            assert(after.handles[k] == handle);
        }
        assert forall|other: nat| other != handle implies (after.is_live(other) <==> registry.is_live(
            other,
        )) by {
            if registry.is_live(other) {
                let k = registry.handles.index_of(other);
                assert(registry.handles[k] == other);
                let m = if k < index {
                    k
                } else {
                    k - 1
                };
                assert(after.handles[m] == other);
            }
            if after.is_live(other) {
                let k = after.handles.index_of(other);
                assert(after.handles[k] == other);
            }
        }
    }
}

/// Disposal is idempotent: invoking a disposer a second time changes
/// nothing, and in particular does not ask the host to stop again.
pub proof fn law_dispose_idempotent<L>(registry: Registry<L>, handle: nat)
    requires
        registry.inv(),
    ensures
        registry.dispose(handle).dispose(handle) == registry.dispose(handle),
{
    law_dispose(registry, handle);
}

/// Disposing of one subscription does not disturb the delivery order of the
/// others: two listeners that both stay live keep their relative order.
pub proof fn law_dispose_keeps_order<L>(registry: Registry<L>, handle: nat, first: int, second: int)
    requires
        registry.inv(),
        0 <= first < second < registry.handles.len(),
        registry.handles[first] != handle,
        registry.handles[second] != handle,
    ensures
        ({
            let after = registry.dispose(handle);
            let i = after.handles.index_of(registry.handles[first]);
            let j = after.handles.index_of(registry.handles[second]);
            &&& 0 <= i < j < after.handles.len()
            &&& after.handles[i] == registry.handles[first]
            &&& after.handles[j] == registry.handles[second]
            &&& after.listeners[i] == registry.listeners[first]
            &&& after.listeners[j] == registry.listeners[second]
        }),
{
    let after = registry.dispose(handle);
    law_dispose(registry, handle);
    if registry.is_live(handle) {
        let index = registry.handles.index_of(handle);
        assert(0 <= index < registry.handles.len() && registry.handles[index] == handle);
        let a = if first < index {
            first
        } else {
            first - 1
        };
        let b = if second < index {
            second
        } else {
            second - 1
        };
        assert(after.handles[a] == registry.handles[first]);
        assert(after.handles[b] == registry.handles[second]);
        assert(after.listeners[a] == registry.listeners[first]);
        assert(after.listeners[b] == registry.listeners[second]);
        let i = after.handles.index_of(registry.handles[first]);
        let j = after.handles.index_of(registry.handles[second]);
        assert(i == a);
        assert(j == b);
    } else {
        let i = after.handles.index_of(registry.handles[first]);
        let j = after.handles.index_of(registry.handles[second]);
        assert(after.handles[first] == registry.handles[first]);
        assert(after.handles[second] == registry.handles[second]);
        assert(i == first);
        assert(j == second);
    }
}

/// Whatever actions are applied to a valid registry, the result is valid
/// and no handle is ever issued again: the next handle never decreases.
pub proof fn law_run_is_valid<L>(registry: Registry<L>, actions: Seq<Action<L>>)
    requires
        registry.inv(),
    ensures
        registry.run(actions).inv(),
        registry.run(actions).next_handle >= registry.next_handle,
    decreases actions.len(),
{
    if actions.len() > 0 {
        law_run_is_valid(registry, actions.drop_last());
        let before = registry.run(actions.drop_last());
        match actions.last() {
            Action::Subscribe(listener) => law_subscribe(before, listener),
            Action::Dispose(handle) => law_dispose(before, handle),
        }
    }
}

/// For any sequence of subscribe and dispose actions on a fresh registry:
/// the host is asked to start exactly once for each time the listener count
/// rises above zero, and to stop exactly once for each return to zero; the
/// two counts never differ by more than one, and they are equal whenever no
/// listener is subscribed.
pub proof fn law_hook_balance<L>(actions: Seq<Action<L>>)
    ensures
        ({
            let start = Registry::<L>::empty();
            let end = start.run(actions);
            &&& end.hook_calls == start.activations(actions)
            &&& end.unhook_calls == start.deactivations(actions)
            &&& end.unhook_calls <= end.hook_calls <= end.unhook_calls + 1
            &&& end.hook_calls == end.unhook_calls <==> !end.is_active()
        }),
    decreases actions.len(),
{
    let start = Registry::<L>::empty();
    law_run_is_valid(start, actions);
    if actions.len() > 0 {
        law_hook_balance::<L>(actions.drop_last());
        law_run_is_valid(start, actions.drop_last());
        let before = start.run(actions.drop_last());
        match actions.last() {
            Action::Subscribe(listener) => law_subscribe(before, listener),
            Action::Dispose(handle) => law_dispose(before, handle),
        }
    }
}

} // verus!
