//! A collection of disposers that are invoked together.

use vstd::prelude::*;

verus! {

/// Disposers of type `D`, kept in the order in which they were added.
pub struct Disposables<D> {
    disposables: Vec<D>,
}

impl<D> View for Disposables<D> {
    type V = Seq<D>;

    closed spec fn view(&self) -> Seq<D> {
        self.disposables@
    }
}

impl<D: Fn()> Disposables<D> {
    /// Creates a collection that holds no disposer.
    pub fn new() -> (disposables: Self)
        ensures
            disposables@ == Seq::<D>::empty(),
    {
        Disposables { disposables: Vec::new() }
    }

    /// Adds `disposable` behind the disposers that are held already.
    pub fn push(&mut self, disposable: D)
        ensures
            final(self)@ == old(self)@.push(disposable),
    {
        self.disposables.push(disposable);
    }

    /// Invokes every disposer that is held, in the order in which they were
    /// added, and lets go of all of them.
    pub fn dispose(&mut self)
        requires
            forall|i: int| 0 <= i < old(self)@.len() ==> call_requires(#[trigger] old(self)@[i], ()),
        ensures
            final(self)@ == Seq::<D>::empty(),
            forall|i: int| 0 <= i < old(self)@.len() ==> call_ensures(#[trigger] old(self)@[i], (), ()),
    {
        let count = self.disposables.len();
        let mut position: usize = 0;
        while position < count
            invariant
                self.disposables@ == old(self)@,
                count == self.disposables@.len(),
                position <= count,
                forall|i: int|
                    0 <= i < self.disposables@.len() ==> call_requires(
                        #[trigger] self.disposables@[i],
                        (),
                    ),
                forall|i: int|
                    0 <= i < position ==> call_ensures(#[trigger] self.disposables@[i], (), ()),
            decreases count - position,
        {
            (self.disposables[position])();
            position = position + 1;
        }
        self.disposables.clear();
    }
}

} // verus!
