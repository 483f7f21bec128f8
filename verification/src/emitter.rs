//! The event emitter: one host callback fanned out to many listeners.
//!
//! The host can call a single fixed entry point per event kind. An
//! [`EventEmitter`] stands behind that entry point and delivers each event to
//! every listener that is subscribed, in the order of subscription. It asks the
//! host to start delivering when the first listener arrives (`hook`) and to
//! stop when the last one leaves (`unhook`).

use crate::handle_set::{handle_count, handle_order, insert_handle, new_handle_set, remove_handle};
use crate::sharing::share;
use crate::subscription::Registry;
use indexmap::IndexSet;
use std::hash::RandomState;
use std::marker::PhantomData;
use std::rc::Rc;
use vstd::prelude::*;

verus! {

/// A payload that the host delivers to listeners.
pub trait Event: 'static {
    /// The name of the event kind.
    fn get_type(&self) -> &'static str;
}

/// The handles of `order` as the model counts them.
pub open spec fn as_handles(order: Seq<u32>) -> Seq<nat> {
    Seq::new(order.len(), |i: int| order[i] as nat)
}

/// The listeners that the pointers of `shared` point to.
pub open spec fn as_listeners<L>(shared: Seq<Rc<L>>) -> Seq<L> {
    Seq::new(shared.len(), |i: int| *shared[i])
}

/// What a subscriber receives: the means to end its subscription. It names
/// the subscription by its handle and is applied to the emitter that issued
/// it.
pub struct Disposer {
    handle: u32,
}

/// An ordered registry of listeners of type `L` for events of type `E`, bound
/// to the two procedures of type `H` by which the host is asked to start and
/// to stop delivering.
///
/// The handles of the live subscriptions are kept in an ordered hash set,
/// which finds the place of a handle, and the listeners in a vector in the
/// same order. The two counters are ghost state: they record how often each
/// procedure was invoked by this emitter.
pub struct EventEmitter<E, L, H> {
    event: PhantomData<E>,
    next_id: u32,
    hook: H,
    unhook: H,
    order: IndexSet<u32, RandomState>,
    listeners: Vec<Rc<L>>,
    hook_calls: Ghost<nat>,
    unhook_calls: Ghost<nat>,
}

impl<E, L, H> View for EventEmitter<E, L, H> {
    type V = Registry<L>;

    closed spec fn view(&self) -> Registry<L> {
        Registry {
            handles: as_handles(handle_order(self.order)),
            listeners: as_listeners(self.listeners@),
            next_handle: self.next_id as nat,
            hook_calls: self.hook_calls@,
            unhook_calls: self.unhook_calls@,
        }
    }
}

/// Invokes `procedure` and counts the invocation in `calls`.
fn signal<H: Fn()>(procedure: &H, calls: &mut Ghost<nat>)
    requires
        call_requires(*procedure, ()),
    ensures
        call_ensures(*procedure, (), ()),
        final(calls)@ == old(calls)@ + 1,
{
    procedure();
    proof {
        calls@ = calls@ + 1;
    }
}

proof fn lemma_as_handles_index(order: Seq<u32>, handle: u32)
    requires
        order.no_duplicates() || as_handles(order).no_duplicates(),
    ensures
        as_handles(order).contains(handle as nat) <==> order.contains(handle),
        as_handles(order).no_duplicates(),
        order.no_duplicates(),
        order.contains(handle) ==> as_handles(order).index_of(handle as nat) == order.index_of(
            handle,
        ),
{
    let lifted = as_handles(order);
    assert forall|i: int, j: int|
        0 <= i < lifted.len() && 0 <= j < lifted.len() && i != j implies lifted[i] != lifted[j] by {
        if order.no_duplicates() {
            assert(order[i] != order[j]);
        }
    }
    assert forall|i: int, j: int|
        0 <= i < order.len() && 0 <= j < order.len() && i != j implies order[i] != order[j] by {
        assert(lifted[i] != lifted[j]);
    }
    if order.contains(handle) {
        let i = order.index_of(handle);
        assert(lifted[i] == handle as nat);
        let k = lifted.index_of(handle as nat);
        assert(lifted[k] == handle as nat);
        assert(k == i);
    }
    if lifted.contains(handle as nat) {
        let k = lifted.index_of(handle as nat);
        assert(order[k] == handle);
    }
}

/// Delivers `event` to each of `listeners`, first to last.
pub fn deliver<L, E>(listeners: &Vec<Rc<L>>, event: &E) where L: Fn(&E)
    requires
        forall|i: int|
            0 <= i < listeners@.len() ==> call_requires(
                #[trigger] as_listeners(listeners@)[i],
                (event,),
            ),
    ensures
        forall|i: int|
            0 <= i < listeners@.len() ==> call_ensures(
                #[trigger] as_listeners(listeners@)[i],
                (event,),
                (),
            ),
{
    let ghost targets = as_listeners(listeners@);
    let count = listeners.len();
    let mut position: usize = 0;
    while position < count
        invariant
            targets == as_listeners(listeners@),
            count == targets.len(),
            position <= count,
            forall|i: int| 0 <= i < targets.len() ==> call_requires(#[trigger] targets[i], (event,)),
            forall|i: int| 0 <= i < position ==> call_ensures(#[trigger] targets[i], (event,), ()),
        decreases count - position,
    {
        let listener: &L = &listeners[position];
        assert(*listener == targets[position as int]);
        listener(event);
        position = position + 1;
    }
}

impl Disposer {
    /// The handle of the subscription that this disposer ends.
    pub closed spec fn handle(&self) -> nat {
        self.handle as nat
    }

    /// Ends the subscription on `emitter`: its listener is removed if it is
    /// still subscribed, and the host is asked to stop delivering if that
    /// listener was the last. Invoking a disposer again changes nothing.
    pub fn dispose<E, L: Fn(&E), H: Fn()>(&self, emitter: &mut EventEmitter<E, L, H>)
        requires
            old(emitter).wf(),
        ensures
            final(emitter).wf(),
            final(emitter)@ == old(emitter)@.dispose(self.handle()),
            final(emitter).hook_fn() == old(emitter).hook_fn(),
            final(emitter).unhook_fn() == old(emitter).unhook_fn(),
            old(emitter)@.is_live(self.handle()) && old(emitter)@.handles.len() == 1
                ==> call_ensures(old(emitter).unhook_fn(), (), ()),
    {
        emitter.remove(self.handle);
    }
}

impl<E, L: Fn(&E), H: Fn()> EventEmitter<E, L, H> {
    /// The procedure that asks the host to start delivering events.
    pub closed spec fn hook_fn(&self) -> H {
        self.hook
    }

    /// The procedure that asks the host to stop delivering events.
    pub closed spec fn unhook_fn(&self) -> H {
        self.unhook
    }

    /// Whether `listener` may be invoked with any event.
    pub open spec fn accepts_every_event(listener: L) -> bool {
        forall|event: &E| #[trigger] call_requires(listener, (event,))
    }

    /// The emitter is in a state that its operations produce: the model's
    /// invariant holds, the next handle fits the handle type, both host
    /// procedures may be invoked, and so may every listener, with any event.
    pub open spec fn wf(&self) -> bool {
        &&& self@.inv()
        &&& self@.next_handle <= u32::MAX
        &&& call_requires(self.hook_fn(), ())
        &&& call_requires(self.unhook_fn(), ())
        &&& forall|i: int|
            0 <= i < self@.listeners.len() ==> Self::accepts_every_event(
                #[trigger] self@.listeners[i],
            )
    }

    /// Creates an emitter without listeners. The two procedures are stored,
    /// not invoked.
    pub fn new(hook: H, unhook: H) -> (emitter: Self)
        requires
            call_requires(hook, ()),
            call_requires(unhook, ()),
        ensures
            emitter.wf(),
            emitter@ == Registry::<L>::empty(),
            emitter.hook_fn() == hook,
            emitter.unhook_fn() == unhook,
    {
        let emitter = EventEmitter {
            event: PhantomData,
            next_id: 1,
            hook,
            unhook,
            order: new_handle_set(),
            listeners: Vec::new(),
            hook_calls: Ghost(0),
            unhook_calls: Ghost(0),
        };
        assert(emitter@.handles =~= Seq::<nat>::empty());
        assert(emitter@.listeners =~= Seq::<L>::empty());
        emitter
    }

    /// Subscribes `listener`, which must accept every event, behind all
    /// listeners that are subscribed already, under a handle that was never issued before. If no listener
    /// was subscribed, the host is first asked to start delivering. The
    /// disposer that is returned ends this subscription and no other.
    ///
    /// Handles are 32-bit numbers that are not issued twice, so an emitter
    /// accepts `u32::MAX - 1` subscriptions over its lifetime;
    /// `has_free_handle` tells whether one is left.
    pub fn on(&mut self, listener: L) -> (disposer: Disposer)
        requires
            old(self).wf(),
            old(self)@.next_handle < u32::MAX,
            Self::accepts_every_event(listener),
        ensures
            final(self).wf(),
            final(self)@ == old(self)@.subscribe(listener),
            disposer.handle() == old(self)@.next_handle,
            final(self).hook_fn() == old(self).hook_fn(),
            final(self).unhook_fn() == old(self).unhook_fn(),
            !old(self)@.is_active() ==> call_ensures(old(self).hook_fn(), (), ()),
    {
        let ghost before = self@;
        let ghost order_before = handle_order(self.order);
        if handle_count(&self.order) == 0 {
            signal(&self.hook, &mut self.hook_calls);
        }
        let id = self.next_id;
        self.next_id = id + 1;
        proof {
            crate::subscription::law_subscribe(before, listener);
            lemma_as_handles_index(order_before, id);
        }
        let inserted = insert_handle(&mut self.order, id);
        self.listeners.push(Rc::new(listener));
        proof {
            assert(inserted);
            assert(self@.handles =~= before.subscribe(listener).handles);
            assert(self@.listeners =~= before.subscribe(listener).listeners);
            assert forall|i: int| 0 <= i < self@.listeners.len() implies Self::accepts_every_event(
                #[trigger] self@.listeners[i],
            ) by {
                if i < before.listeners.len() {
                    assert(self@.listeners[i] == before.listeners[i]);
                }
            }
        }
        Disposer { handle: id }
    }

    /// Ends the subscription with handle `id`. If it is live, its listener
    /// is removed and the others keep their order; if it was the last, the
    /// host is asked to stop delivering. If it is not live, nothing happens.
    pub fn remove(&mut self, id: u32)
        requires
            old(self).wf(),
        ensures
            final(self).wf(),
            final(self)@ == old(self)@.dispose(id as nat),
            final(self).hook_fn() == old(self).hook_fn(),
            final(self).unhook_fn() == old(self).unhook_fn(),
            old(self)@.is_live(id as nat) && old(self)@.handles.len() == 1 ==> call_ensures(
                old(self).unhook_fn(),
                (),
                (),
            ),
    {
        let ghost before = self@;
        let ghost order_before = handle_order(self.order);
        proof {
            crate::subscription::law_dispose(before, id as nat);
            lemma_as_handles_index(order_before, id);
        }
        match remove_handle(&mut self.order, id) {
            Some((index, _)) => {
                let _ = self.listeners.remove(index);
                proof {
                    assert(order_before[index as int] == id);
                    assert(order_before[order_before.index_of(id)] == id);
                    assert(as_handles(handle_order(self.order)) =~= before.handles.remove(
                        index as int,
                    ));
                    assert(as_listeners(self.listeners@) =~= before.listeners.remove(index as int));
                    assert forall|i: int|
                        0 <= i < self@.listeners.len() implies Self::accepts_every_event(
                        #[trigger] self@.listeners[i],
                    ) by {
                        let from = if i < index {
                            i
                        } else {
                            i + 1
                        };
                        assert(self@.listeners[i] == before.listeners[from]);
                    }
                }
                if handle_count(&self.order) == 0 {
                    signal(&self.unhook, &mut self.unhook_calls);
                }
            },
            None => {},
        }
    }

    /// Delivers `event` to every subscribed listener, oldest subscription
    /// first. With no listener subscribed this does nothing. The emitter
    /// itself is not changed.
    pub fn fire(&self, event: &E)
        requires
            self.wf(),
        ensures
            forall|i: int|
                0 <= i < self@.listeners.len() ==> call_ensures(
                    #[trigger] self@.listeners[i],
                    (event,),
                    (),
                ),
    {
        assert(self@.listeners == as_listeners(self.listeners@));
        assert forall|i: int| 0 <= i < self.listeners@.len() implies call_requires(
            #[trigger] as_listeners(self.listeners@)[i],
            (event,),
        ) by {
            assert(Self::accepts_every_event(self@.listeners[i]));
        }
        deliver(&self.listeners, event);
    }

    /// The listeners that are subscribed now, oldest subscription first.
    /// Passing this list to `deliver` instead of calling `fire` lets a
    /// listener subscribe or dispose while the event is being delivered: the
    /// delivery goes to exactly the listeners that were subscribed when the
    /// list was taken, to each of them once.
    pub fn snapshot(&self) -> (listeners: Vec<Rc<L>>)
        ensures
            as_listeners(listeners@) == self@.listeners,
    {
        let count = self.listeners.len();
        let mut copies: Vec<Rc<L>> = Vec::new();
        let mut position: usize = 0;
        while position < count
            invariant
                count == self.listeners@.len(),
                position <= count,
                copies@.len() == position,
                forall|i: int| 0 <= i < position ==> *(#[trigger] copies@[i]) == *self.listeners@[i],
            decreases count - position,
        {
            copies.push(share(&self.listeners[position]));
            position = position + 1;
        }
        assert(as_listeners(copies@) =~= self@.listeners);
        copies
    }

    /// Whether a handle is left for another subscription.
    pub fn has_free_handle(&self) -> (free: bool)
        ensures
            free == (self@.next_handle < u32::MAX),
    {
        self.next_id < u32::MAX
    }

    /// The number of subscribed listeners.
    pub fn len(&self) -> (count: usize)
        ensures
            count == self@.handles.len(),
    {
        handle_count(&self.order)
    }
}

} // verus!
