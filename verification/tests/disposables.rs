use std::cell::RefCell;
use std::rc::Rc;

use vscode_api::disposables::Disposables;

fn recorder(log: &Rc<RefCell<Vec<u32>>>, name: u32) -> Box<dyn Fn()> {
    let log = log.clone();
    Box::new(move || log.borrow_mut().push(name))
}

#[test]
fn empty_collection_disposes_nothing() {
    let mut disposables: Disposables<Box<dyn Fn()>> = Disposables::new();
    disposables.dispose();
    disposables.dispose();
}

#[test]
fn push_does_not_invoke() {
    let log = Rc::new(RefCell::new(Vec::new()));
    let mut disposables = Disposables::new();
    disposables.push(recorder(&log, 1));
    assert!(log.borrow().is_empty());
}

#[test]
fn dispose_invokes_in_order_of_addition() {
    let log = Rc::new(RefCell::new(Vec::new()));
    let mut disposables = Disposables::new();
    disposables.push(recorder(&log, 3));
    disposables.push(recorder(&log, 1));
    disposables.push(recorder(&log, 2));
    disposables.dispose();
    assert_eq!(*log.borrow(), vec![3, 1, 2]);
}

#[test]
fn dispose_lets_go_of_the_disposers() {
    let log = Rc::new(RefCell::new(Vec::new()));
    let mut disposables = Disposables::new();
    disposables.push(recorder(&log, 1));
    disposables.dispose();
    disposables.dispose();
    assert_eq!(*log.borrow(), vec![1]);
    disposables.push(recorder(&log, 2));
    disposables.dispose();
    assert_eq!(*log.borrow(), vec![1, 2]);
}
