//! An adapter that turns a setter which changes a whole in place into one that makes a
//! new whole.
use std::marker::PhantomData;
use vstd::pervasive::cloned;
use vstd::prelude::*;

verus! {

/// A setter that clones the whole and lets `F` put the new part into the clone.
#[verifier::reject_recursive_types(T)]
#[verifier::reject_recursive_types(U)]
pub struct CloneSetFn<T: Clone, U, F: Fn(&mut T, U)>(F, PhantomData<(T, U)>);

impl<T: Clone, U, F: Fn(&mut T, U)> CloneSetFn<T, U, F> {
    /// The setter that changes the clone in place.
    pub closed spec fn inner(&self) -> F {
        self.0
    }

    /// The setter may be called with a clone of `root` and with `child`.
    pub open spec fn callable(&self, root: T, child: U) -> bool {
        forall|copy: &mut T| cloned(root, *copy) ==> self.inner().requires((copy, child))
    }

    /// The setter that clones the whole and lets `f` put the new part into the clone.
    pub fn new(f: F) -> (set: CloneSetFn<T, U, F>)
        ensures
            set.inner() == f,
    {
        CloneSetFn(f, PhantomData)
    }

    /// Makes the whole that results from putting `child` into a clone of `root`.
    pub fn call(&self, root: &T, child: U) -> (whole: T)
        requires
            self.callable(*root, child),
        ensures
            exists|copy: &mut T|
                {
                    &&& cloned(*root, *copy)
                    &&& #[trigger] self.inner().ensures((copy, child), ())
                    &&& *final(copy) == whole
                },
    {
        let mut whole = root.clone();
        assert(cloned(*root, whole));
        (self.0)(&mut whole, child);
        whole
    }
}

} // verus!
