use std::cell::{Cell, RefCell};
use std::rc::Rc;

use vscode_api::emitter::{deliver, Disposer, Event, EventEmitter};

type Listener = Box<dyn Fn(&u32)>;
type Procedure = Box<dyn Fn()>;

struct Counters {
    hooks: Rc<Cell<u32>>,
    unhooks: Rc<Cell<u32>>,
}

fn counted_emitter() -> (EventEmitter<u32, Listener, Procedure>, Counters) {
    let hooks = Rc::new(Cell::new(0));
    let unhooks = Rc::new(Cell::new(0));
    let hook_count = hooks.clone();
    let unhook_count = unhooks.clone();
    let emitter = EventEmitter::new(
        Box::new(move || hook_count.set(hook_count.get() + 1)) as Procedure,
        Box::new(move || unhook_count.set(unhook_count.get() + 1)) as Procedure,
    );
    (emitter, Counters { hooks, unhooks })
}

fn recorder(log: &Rc<RefCell<Vec<(u32, u32)>>>, name: u32) -> Listener {
    let log = log.clone();
    Box::new(move |event: &u32| log.borrow_mut().push((name, *event)))
}

#[test]
fn construction_invokes_neither_procedure() {
    let (emitter, counters) = counted_emitter();
    assert_eq!(emitter.len(), 0);
    assert_eq!(counters.hooks.get(), 0);
    assert_eq!(counters.unhooks.get(), 0);
}

#[test]
fn hook_runs_on_first_subscription_only() {
    let (mut emitter, counters) = counted_emitter();
    let log = Rc::new(RefCell::new(Vec::new()));
    let _first = emitter.on(recorder(&log, 1));
    assert_eq!(counters.hooks.get(), 1);
    let _second = emitter.on(recorder(&log, 2));
    let _third = emitter.on(recorder(&log, 3));
    assert_eq!(counters.hooks.get(), 1);
    assert_eq!(counters.unhooks.get(), 0);
    assert_eq!(emitter.len(), 3);
}

#[test]
fn unhook_runs_when_last_listener_leaves() {
    let (mut emitter, counters) = counted_emitter();
    let log = Rc::new(RefCell::new(Vec::new()));
    let first = emitter.on(recorder(&log, 1));
    let second = emitter.on(recorder(&log, 2));
    second.dispose(&mut emitter);
    assert_eq!(counters.unhooks.get(), 0);
    assert_eq!(emitter.len(), 1);
    first.dispose(&mut emitter);
    assert_eq!(counters.unhooks.get(), 1);
    assert_eq!(emitter.len(), 0);
}

#[test]
fn hook_and_unhook_alternate_over_several_rounds() {
    let (mut emitter, counters) = counted_emitter();
    let log = Rc::new(RefCell::new(Vec::new()));
    for round in 1..=4u32 {
        let first = emitter.on(recorder(&log, 1));
        assert_eq!(counters.hooks.get(), round);
        assert_eq!(counters.unhooks.get(), round - 1);
        let second = emitter.on(recorder(&log, 2));
        assert_eq!(counters.hooks.get(), round);
        first.dispose(&mut emitter);
        assert_eq!(counters.hooks.get() - counters.unhooks.get(), 1);
        second.dispose(&mut emitter);
        assert_eq!(counters.hooks.get(), round);
        assert_eq!(counters.unhooks.get(), round);
    }
}

#[test]
fn fire_reaches_listeners_in_subscription_order() {
    let (mut emitter, _counters) = counted_emitter();
    let log = Rc::new(RefCell::new(Vec::new()));
    let _first = emitter.on(recorder(&log, 1));
    let _second = emitter.on(recorder(&log, 2));
    let _third = emitter.on(recorder(&log, 3));
    emitter.fire(&42);
    assert_eq!(*log.borrow(), vec![(1, 42), (2, 42), (3, 42)]);
}

#[test]
fn each_fire_reaches_each_listener_once() {
    let (mut emitter, _counters) = counted_emitter();
    let log = Rc::new(RefCell::new(Vec::new()));
    let _first = emitter.on(recorder(&log, 1));
    let _second = emitter.on(recorder(&log, 2));
    emitter.fire(&7);
    emitter.fire(&8);
    assert_eq!(*log.borrow(), vec![(1, 7), (2, 7), (1, 8), (2, 8)]);
}

#[test]
fn fire_without_listeners_does_nothing() {
    let (emitter, counters) = counted_emitter();
    emitter.fire(&1);
    assert_eq!(emitter.len(), 0);
    assert_eq!(counters.hooks.get(), 0);
    assert_eq!(counters.unhooks.get(), 0);
}

#[test]
fn order_survives_removal_from_the_middle() {
    let (mut emitter, _counters) = counted_emitter();
    let log = Rc::new(RefCell::new(Vec::new()));
    let _first = emitter.on(recorder(&log, 1));
    let second = emitter.on(recorder(&log, 2));
    let _third = emitter.on(recorder(&log, 3));
    second.dispose(&mut emitter);
    let _fourth = emitter.on(recorder(&log, 4));
    emitter.fire(&5);
    assert_eq!(*log.borrow(), vec![(1, 5), (3, 5), (4, 5)]);
}

#[test]
fn disposing_twice_is_the_same_as_once() {
    let (mut emitter, counters) = counted_emitter();
    let log = Rc::new(RefCell::new(Vec::new()));
    let only = emitter.on(recorder(&log, 1));
    only.dispose(&mut emitter);
    assert_eq!(counters.unhooks.get(), 1);
    only.dispose(&mut emitter);
    assert_eq!(counters.unhooks.get(), 1);
    assert_eq!(emitter.len(), 0);
    emitter.fire(&9);
    assert!(log.borrow().is_empty());
}

#[test]
fn stale_disposer_leaves_later_subscriptions_alone() {
    let (mut emitter, counters) = counted_emitter();
    let log = Rc::new(RefCell::new(Vec::new()));
    let first = emitter.on(recorder(&log, 1));
    first.dispose(&mut emitter);
    let _second = emitter.on(recorder(&log, 2));
    first.dispose(&mut emitter);
    assert_eq!(emitter.len(), 1);
    assert_eq!(counters.hooks.get(), 2);
    assert_eq!(counters.unhooks.get(), 1);
    emitter.fire(&3);
    assert_eq!(*log.borrow(), vec![(2, 3)]);
}

#[test]
fn handles_start_at_one_and_are_not_issued_again() {
    let (mut emitter, _counters) = counted_emitter();
    let log = Rc::new(RefCell::new(Vec::new()));
    let _first = emitter.on(recorder(&log, 1));
    let _second = emitter.on(recorder(&log, 2));
    emitter.remove(1);
    assert_eq!(emitter.len(), 1);
    let _third = emitter.on(recorder(&log, 3));
    emitter.remove(1);
    assert_eq!(emitter.len(), 2);
    emitter.remove(3);
    assert_eq!(emitter.len(), 1);
    emitter.fire(&0);
    assert_eq!(*log.borrow(), vec![(2, 0)]);
}

#[test]
fn removing_an_unknown_handle_changes_nothing() {
    let (mut emitter, counters) = counted_emitter();
    let log = Rc::new(RefCell::new(Vec::new()));
    emitter.remove(17);
    assert_eq!(counters.unhooks.get(), 0);
    let _first = emitter.on(recorder(&log, 1));
    emitter.remove(0);
    emitter.remove(2);
    emitter.remove(u32::MAX);
    assert_eq!(emitter.len(), 1);
    assert_eq!(counters.unhooks.get(), 0);
}

#[test]
fn subscribe_dispose_fire_scenario() {
    let (mut emitter, counters) = counted_emitter();
    let log = Rc::new(RefCell::new(Vec::new()));
    let first = emitter.on(recorder(&log, 1));
    assert_eq!(counters.hooks.get(), 1);
    let second = emitter.on(recorder(&log, 2));
    assert_eq!(counters.hooks.get(), 1);
    first.dispose(&mut emitter);
    assert_eq!(counters.unhooks.get(), 0);
    second.dispose(&mut emitter);
    assert_eq!(counters.unhooks.get(), 1);
    emitter.fire(&1);
    assert!(log.borrow().is_empty());
}

#[test]
fn snapshot_holds_the_listeners_in_order() {
    let (mut emitter, _counters) = counted_emitter();
    let log = Rc::new(RefCell::new(Vec::new()));
    for name in 1..=3u32 {
        let _ = emitter.on(recorder(&log, name));
    }
    let snapshot = emitter.snapshot();
    assert_eq!(snapshot.len(), 3);
    deliver(&snapshot, &6);
    assert_eq!(*log.borrow(), vec![(1, 6), (2, 6), (3, 6)]);
    assert_eq!(emitter.len(), 3);
}

type SharedEmitter = Rc<RefCell<EventEmitter<u32, Listener, Procedure>>>;

fn shared_emitter(unhook: Procedure) -> SharedEmitter {
    Rc::new(RefCell::new(EventEmitter::new(Box::new(|| {}), unhook)))
}

fn deliver_shared(emitter: &SharedEmitter, event: u32) {
    let snapshot = emitter.borrow().snapshot();
    deliver(&snapshot, &event);
}

#[test]
fn listener_disposed_during_delivery_still_gets_that_event_once() {
    let emitter = shared_emitter(Box::new(|| {}));
    let log = Rc::new(RefCell::new(Vec::new()));
    let victim: Rc<RefCell<Option<Disposer>>> = Rc::new(RefCell::new(None));

    let first_log = log.clone();
    let first_emitter = emitter.clone();
    let first_victim = victim.clone();
    let _first = emitter.borrow_mut().on(Box::new(move |event: &u32| {
        first_log.borrow_mut().push((1, *event));
        if let Some(disposer) = first_victim.borrow().as_ref() {
            disposer.dispose(&mut first_emitter.borrow_mut());
        }
    }));
    let second_log = log.clone();
    let second = emitter
        .borrow_mut()
        .on(Box::new(move |event: &u32| second_log.borrow_mut().push((2, *event))));
    *victim.borrow_mut() = Some(second);

    deliver_shared(&emitter, 10);
    assert_eq!(*log.borrow(), vec![(1, 10), (2, 10)]);
    assert_eq!(emitter.borrow().len(), 1);

    deliver_shared(&emitter, 11);
    assert_eq!(*log.borrow(), vec![(1, 10), (2, 10), (1, 11)]);
}

#[test]
fn listener_subscribed_during_delivery_waits_for_the_next_event() {
    let emitter = shared_emitter(Box::new(|| {}));
    let log = Rc::new(RefCell::new(Vec::new()));

    let first_log = log.clone();
    let first_emitter = emitter.clone();
    let _first = emitter.borrow_mut().on(Box::new(move |event: &u32| {
        first_log.borrow_mut().push((1, *event));
        if *event == 1 {
            let late_log = first_log.clone();
            let _ = first_emitter
                .borrow_mut()
                .on(Box::new(move |event: &u32| late_log.borrow_mut().push((2, *event))));
        }
    }));

    deliver_shared(&emitter, 1);
    assert_eq!(*log.borrow(), vec![(1, 1)]);
    deliver_shared(&emitter, 2);
    assert_eq!(*log.borrow(), vec![(1, 1), (1, 2), (2, 2)]);
}

#[test]
fn listener_may_dispose_itself_during_delivery() {
    let unhooks = Rc::new(Cell::new(0));
    let unhook_count = unhooks.clone();
    let emitter = shared_emitter(Box::new(move || unhook_count.set(unhook_count.get() + 1)));
    let log = Rc::new(RefCell::new(Vec::new()));
    let own: Rc<RefCell<Option<Disposer>>> = Rc::new(RefCell::new(None));

    let listener_log = log.clone();
    let listener_emitter = emitter.clone();
    let listener_own = own.clone();
    let disposer = emitter.borrow_mut().on(Box::new(move |event: &u32| {
        listener_log.borrow_mut().push((1, *event));
        if let Some(disposer) = listener_own.borrow().as_ref() {
            disposer.dispose(&mut listener_emitter.borrow_mut());
        }
    }));
    *own.borrow_mut() = Some(disposer);

    deliver_shared(&emitter, 4);
    deliver_shared(&emitter, 5);
    assert_eq!(*log.borrow(), vec![(1, 4)]);
    assert_eq!(unhooks.get(), 1);
    assert_eq!(emitter.borrow().len(), 0);
}

struct DocumentChanged;

impl Event for DocumentChanged {
    fn get_type(&self) -> &'static str {
        "TextDocumentChangeEvent"
    }
}

#[test]
fn events_name_their_kind() {
    let hooks = Rc::new(Cell::new(0));
    let hook_count = hooks.clone();
    let mut emitter: EventEmitter<DocumentChanged, Box<dyn Fn(&DocumentChanged)>, Procedure> = EventEmitter::new(
        Box::new(move || hook_count.set(hook_count.get() + 1)),
        Box::new(|| {}),
    );
    let seen = Rc::new(RefCell::new(Vec::new()));
    let seen_by_listener = seen.clone();
    let _listener = emitter.on(Box::new(move |event: &DocumentChanged| {
        seen_by_listener.borrow_mut().push(event.get_type())
    }));
    emitter.fire(&DocumentChanged);
    assert_eq!(*seen.borrow(), vec!["TextDocumentChangeEvent"]);
    assert_eq!(hooks.get(), 1);
}

#[test]
fn snapshot_is_not_changed_by_later_disposal() {
    let (mut emitter, _counters) = counted_emitter();
    let log = Rc::new(RefCell::new(Vec::new()));
    let first = emitter.on(recorder(&log, 1));
    let _second = emitter.on(recorder(&log, 2));
    let snapshot = emitter.snapshot();
    first.dispose(&mut emitter);
    assert_eq!(snapshot.len(), 2);
    assert_eq!(emitter.snapshot().len(), 1);
    for listener in snapshot.iter() {
        listener(&1);
    }
    assert_eq!(*log.borrow(), vec![(1, 1), (2, 1)]);
}

#[test]
fn fresh_emitter_has_a_free_handle() {
    let (mut emitter, _counters) = counted_emitter();
    assert!(emitter.has_free_handle());
    let log = Rc::new(RefCell::new(Vec::new()));
    let _first = emitter.on(recorder(&log, 1));
    assert!(emitter.has_free_handle());
}

#[test]
fn deliver_to_an_empty_list_does_nothing() {
    let listeners: Vec<Rc<Listener>> = Vec::new();
    deliver(&listeners, &3);
}

#[test]
fn hook_counts_follow_the_transitions_over_a_long_run() {
    let (mut emitter, counters) = counted_emitter();
    let log = Rc::new(RefCell::new(Vec::new()));
    let mut live: Vec<(u32, Disposer)> = Vec::new();
    let mut stale: Vec<Disposer> = Vec::new();
    let mut activations = 0;
    let mut deactivations = 0;
    let mut state: u32 = 12345;
    for name in 0..500u32 {
        state = state.wrapping_mul(1_103_515_245).wrapping_add(12_345);
        let choice = (state >> 16) % 5;
        if choice < 2 || live.is_empty() && choice == 2 {
            if live.is_empty() {
                activations += 1;
            }
            live.push((name, emitter.on(recorder(&log, name))));
        } else if choice < 4 && !live.is_empty() {
            let index = ((state >> 8) as usize) % live.len();
            let (_, disposer) = live.remove(index);
            disposer.dispose(&mut emitter);
            if live.is_empty() {
                deactivations += 1;
            }
            stale.push(disposer);
        } else if let Some(disposer) = stale.last() {
            disposer.dispose(&mut emitter);
        }
        assert_eq!(emitter.len(), live.len());
        assert_eq!(counters.hooks.get(), activations);
        assert_eq!(counters.unhooks.get(), deactivations);
        assert_eq!(activations - deactivations, if live.is_empty() { 0 } else { 1 });
    }
    log.borrow_mut().clear();
    emitter.fire(&0);
    let expected: Vec<(u32, u32)> = live.iter().map(|(name, _)| (*name, 0)).collect();
    assert_eq!(*log.borrow(), expected);
    for (_, disposer) in live.iter() {
        disposer.dispose(&mut emitter);
    }
    assert_eq!(emitter.len(), 0);
    assert_eq!(counters.hooks.get(), counters.unhooks.get());
}
