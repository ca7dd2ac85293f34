//! Identity tags that tie a handle to the graph it was created in.
use vstd::prelude::*;

verus! {

/// The identity of one graph instance.
///
/// Every handle records the identity of the graph that issued it, and may only be used
/// with a graph of the same identity. Identities are issued from a counter, which the
/// caller keeps: a program that keeps one counter for all its graphs has no two graphs of
/// one identity.
#[derive(Debug, Clone, Copy, PartialEq, Eq, Structural)]
pub struct RxDAGUid(pub usize);

impl RxDAGUid {
    /// Issues the identity that follows the last one issued from `counter`.
    ///
    /// Identities issued from one counter are strictly increasing, so no two graphs
    /// created from the same counter share one.
    pub fn next(counter: &mut usize) -> (uid: RxDAGUid)
        requires
            *old(counter) < usize::MAX,
        ensures
            *final(counter) == *old(counter) + 1,
            uid == RxDAGUid(*final(counter)),
    {
        *counter = *counter + 1;
        RxDAGUid(*counter)
    }
}

} // verus!
