//! Splitting a slice at an index into the elements before it, the element itself and the
//! elements after it.
use vstd::prelude::*;

verus! {

/// Walks the three-way splits of a slice, at each of its positions in turn.
pub struct IterSplit3s<'a, T> {
    slice: &'a [T],
    index: usize,
}

/// Walks the three-way splits of a slice with exclusive access to all three parts, at each
/// of its positions in turn.
pub struct IterMutSplit3s<'a, T> {
    pub slice: &'a mut [T],
    pub index: usize,
}

/// Three-way splits of a sequence of elements.
pub trait SliceSplit3<T> {
    /// Splits at `index`, which must be in bounds.
    fn split3(&self, index: usize) -> (parts: (&[T], &T, &[T]))
        requires
            index < self.elements().len(),
        ensures
            parts.0@ == self.elements().subrange(0, index as int),
            *parts.1 == self.elements()[index as int],
            parts.2@ == self.elements().subrange(index + 1, self.elements().len() as int),
    ;

    /// Starts a walk over the splits at every position.
    fn iter_split3s(&self) -> (it: IterSplit3s<'_, T>)
        ensures
            it.source() == self.elements(),
            it.position() == 0,
    ;

    /// Splits at `index`, which must be in bounds, giving exclusive access to each part.
    /// What is written to the parts is what the sequence holds afterwards.
    fn split3_mut(&mut self, index: usize) -> (parts: (&mut [T], &mut T, &mut [T]))
        requires
            index < old(self).elements().len(),
        ensures
            parts.0@ == old(self).elements().subrange(0, index as int),
            *parts.1 == old(self).elements()[index as int],
            parts.2@ == old(self).elements().subrange(
                index + 1,
                old(self).elements().len() as int,
            ),
            final(self).elements() == final(parts.0)@.push(*final(parts.1)) + final(parts.2)@,
    ;

    /// Starts a walk over the splits at every position, with exclusive access.
    fn iter_mut_split3s(&mut self) -> (it: IterMutSplit3s<'_, T>)
        ensures
            it.source() == old(self).elements(),
            it.position() == 0,
            final(self).elements() == final(it.slice)@,
    ;

    /// The elements, in order.
    spec fn elements(&self) -> Seq<T>;
}

impl<T> SliceSplit3<T> for [T] {
    open spec fn elements(&self) -> Seq<T> {
        self@
    }

    fn split3(&self, index: usize) -> (parts: (&[T], &T, &[T])) {
        let (before, current_and_after) = self.split_at(index);
        let (current, after) = current_and_after.split_at(1);
        (before, &current[0], after)
    }

    fn iter_split3s(&self) -> (it: IterSplit3s<'_, T>) {
        IterSplit3s::new(self)
    }

    fn split3_mut(&mut self, index: usize) -> (parts: (&mut [T], &mut T, &mut [T])) {
        let (before, current_and_after) = self.split_at_mut(index);
        let (current, after) = current_and_after.split_at_mut(1);
        (before, &mut current[0], after)
    }

    fn iter_mut_split3s(&mut self) -> (it: IterMutSplit3s<'_, T>) {
        IterMutSplit3s::new(self)
    }
}

impl<'a, T> IterSplit3s<'a, T> {
    /// The cursor is within the slice or at its end.
    #[verifier::type_invariant]
    spec fn in_bounds(&self) -> bool {
        self.index <= self.slice@.len()
    }

    /// The elements of the slice being walked.
    pub closed spec fn source(&self) -> Seq<T> {
        self.slice@
    }

    /// The position at which [`IterSplit3s::next`] splits next.
    pub closed spec fn position(&self) -> usize {
        self.index
    }

    /// Starts a walk over the splits of `slice` at every position.
    pub fn new(slice: &'a [T]) -> (it: IterSplit3s<'a, T>)
        ensures
            it.source() == slice@,
            it.position() == 0,
    {
        IterSplit3s { slice, index: 0 }
    }

    /// Yields the split at the cursor and moves on, or `None` past the last position.
    pub fn next(&mut self) -> (r: Option<(&'a [T], &'a T, &'a [T])>)
        ensures
            final(self).source() == old(self).source(),
            old(self).position() < old(self).source().len() ==> {
                &&& r matches Some(parts)
                &&& parts.0@ == old(self).source().subrange(0, old(self).position() as int)
                &&& *parts.1 == old(self).source()[old(self).position() as int]
                &&& parts.2@ == old(self).source().subrange(
                    old(self).position() + 1,
                    old(self).source().len() as int,
                )
                &&& final(self).position() == old(self).position() + 1
            },
            old(self).position() >= old(self).source().len() ==> {
                &&& r is None
                &&& final(self).position() == old(self).position()
            },
    {
        let slice: &'a [T] = self.slice;
        if self.index >= slice.len() {
            None
        } else {
            let split3 = slice.split3(self.index);
            self.index = self.index + 1;
            Some(split3)
        }
    }

    /// The exact number of splits left to yield, as both bounds.
    pub fn size_hint(&self) -> (r: (usize, Option<usize>))
        ensures
            self.position() <= self.source().len(),
            r.0 == self.source().len() - self.position(),
            r.1 == Some(r.0),
    {
        proof {
            use_type_invariant(self);
        }
        let left = self.slice.len() - self.index;
        (left, Some(left))
    }

    /// The number of splits left to yield.
    pub fn count(self) -> (n: usize)
        ensures
            self.position() <= self.source().len(),
            n == self.source().len() - self.position(),
    {
        proof {
            use_type_invariant(&self);
        }
        self.slice.len() - self.index
    }
}

impl<'a, T> IterMutSplit3s<'a, T> {
    /// The elements of the slice being walked, as they are now.
    pub open spec fn source(&self) -> Seq<T> {
        self.slice@
    }

    /// The position at which [`IterMutSplit3s::next`] splits next.
    pub open spec fn position(&self) -> usize {
        self.index
    }

    /// Starts a walk over the splits of `slice` at every position, with exclusive
    /// access.
    pub fn new(slice: &'a mut [T]) -> (it: IterMutSplit3s<'a, T>)
        ensures
            it.source() == old(slice)@,
            it.position() == 0,
            final(slice)@ == final(it.slice)@,
    {
        IterMutSplit3s { slice, index: 0 }
    }

    /// Yields the split at the cursor and moves on, or `None` past the last position.
    /// The parts are lent for as long as the cursor is not used again.
    pub fn next(&mut self) -> (r: Option<(&mut [T], &mut T, &mut [T])>)
        ensures
            old(self).position() < old(self).source().len() ==> {
                &&& r matches Some(parts)
                &&& parts.0@ == old(self).source().subrange(0, old(self).position() as int)
                &&& *parts.1 == old(self).source()[old(self).position() as int]
                &&& parts.2@ == old(self).source().subrange(
                    old(self).position() + 1,
                    old(self).source().len() as int,
                )
                &&& final(self).position() == old(self).position() + 1
                &&& final(self).source() == final(parts.0)@.push(*final(parts.1)) + final(parts.2)@
            },
            old(self).position() >= old(self).source().len() ==> {
                &&& r is None
                &&& final(self).position() == old(self).position()
                &&& final(self).source() == old(self).source()
            },
    {
        if self.index >= self.slice.len() {
            None
        } else {
            let index = self.index;
            self.index = index + 1;
            Some(self.slice.split3_mut(index))
        }
    }

    /// The exact number of splits left to yield, as both bounds.
    pub fn size_hint(&self) -> (r: (usize, Option<usize>))
        requires
            self.position() <= self.source().len(),
        ensures
            r.0 == self.source().len() - self.position(),
            r.1 == Some(r.0),
    {
        let left = self.slice.len() - self.index;
        (left, Some(left))
    }

    /// The number of splits left to yield.
    pub fn count(self) -> (n: usize)
        requires
            self.position() <= self.source().len(),
        ensures
            n == self.source().len() - self.position(),
    {
        self.slice.len() - self.index
    }
}

} // verus!
