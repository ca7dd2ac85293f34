//! An append-only arena and read-only views of it.
//!
//! Elements are only ever added at the end and never removed or reordered, so an index
//! that was valid once stays valid and keeps naming the same element.
use std::cmp::Ordering;
use vstd::prelude::*;

verus! {

/// An append-only growable sequence.
///
/// Elements are addressed by index. Growing the arena never disturbs the elements that
/// are already in it; only [`FrozenVec::as_mut`], which needs exclusive access to the
/// whole arena, may restructure them.
pub struct FrozenVec<T> {
    vec: Vec<T>,
}

/// A read-only view of a run of elements, of a [`FrozenVec`] or of a plain slice.
pub struct FrozenSlice<'a, T>(&'a [T]);

/// Walks a [`FrozenVec`] front to back; obtained from [`FrozenVec::iter`].
pub struct Iter<'a, T> {
    vec: &'a FrozenVec<T>,
    idx: usize,
}

/// Walks a [`FrozenSlice`] front to back; obtained from [`FrozenSlice::iter`].
pub struct FrozenSliceIter<'a, T> {
    slice: &'a [T],
    idx: usize,
}

impl<T> View for FrozenVec<T> {
    type V = Seq<T>;

    closed spec fn view(&self) -> Seq<T> {
        self.vec@
    }
}

impl<'a, T> View for FrozenSlice<'a, T> {
    type V = Seq<T>;

    closed spec fn view(&self) -> Seq<T> {
        self.0@
    }
}

/// `f` can only answer `o` when asked about `x`.
pub open spec fn answers_only<T, R, F: Fn(&T) -> R>(f: F, x: T, o: R) -> bool {
    forall|r: R| f.ensures((&x,), r) ==> r == o
}

/// Under the comparator `f`, the elements of `s` fall into three runs, in this order: those
/// it can only call `Less`, from `0` to `lo`; those it can only call `Equal`, from `lo` to
/// `hi`; and those it can only call `Greater`, from `hi` on.
pub open spec fn ordered_by<T, F: Fn(&T) -> Ordering>(f: F, s: Seq<T>, lo: int, hi: int) -> bool {
    &&& 0 <= lo <= hi <= s.len()
    &&& forall|j: int| 0 <= j < lo ==> answers_only(f, #[trigger] s[j], Ordering::Less)
    &&& forall|j: int| lo <= j < hi ==> answers_only(f, #[trigger] s[j], Ordering::Equal)
    &&& forall|j: int| hi <= j < s.len() ==> answers_only(f, #[trigger] s[j], Ordering::Greater)
}

/// The elements of `s` fall into three runs, in this order: those that can only compare
/// as `Less` to `x`, from `0` to `lo`; those that can only compare as `Equal`, from `lo`
/// to `hi`; and those that can only compare as `Greater`, from `hi` on.
pub open spec fn ordered_around<T: Ord>(s: Seq<T>, x: &T, lo: int, hi: int) -> bool {
    &&& 0 <= lo <= hi <= s.len()
    &&& forall|j: int, o: Ordering|
        0 <= j < lo && #[trigger] call_ensures(T::cmp, (&s[j], x), o) ==> o == Ordering::Less
    &&& forall|j: int, o: Ordering|
        lo <= j < hi && #[trigger] call_ensures(T::cmp, (&s[j], x), o) ==> o == Ordering::Equal
    &&& forall|j: int, o: Ordering|
        hi <= j < s.len() && #[trigger] call_ensures(T::cmp, (&s[j], x), o) ==> o
            == Ordering::Greater
}

/// The keys that `f` extracts from the elements of `s` fall into three runs, in this
/// order: those that can only compare as `Less` to `b`, from `0` to `lo`; those that can
/// only compare as `Equal`, from `lo` to `hi`; and those that can only compare as
/// `Greater`, from `hi` on.
pub open spec fn keys_ordered_around<T, B: Ord, F: Fn(&T) -> B>(
    f: F,
    s: Seq<T>,
    b: &B,
    lo: int,
    hi: int,
) -> bool {
    &&& 0 <= lo <= hi <= s.len()
    &&& forall|j: int, o: Ordering|
        0 <= j < lo && #[trigger] key_compares(f, s[j], b, o) ==> o == Ordering::Less
    &&& forall|j: int, o: Ordering|
        lo <= j < hi && #[trigger] key_compares(f, s[j], b, o) ==> o == Ordering::Equal
    &&& forall|j: int, o: Ordering|
        hi <= j < s.len() && #[trigger] key_compares(f, s[j], b, o) ==> o == Ordering::Greater
}

/// The predicate `pred` can only hold on the first `k` elements of `s` and can only fail
/// on the others.
pub open spec fn partitioned_by<T, P: Fn(&T) -> bool>(pred: P, s: Seq<T>, k: int) -> bool {
    &&& 0 <= k <= s.len()
    &&& forall|j: int| 0 <= j < k ==> answers_only(pred, #[trigger] s[j], true)
    &&& forall|j: int| k <= j < s.len() ==> answers_only(pred, #[trigger] s[j], false)
}

impl<T> FrozenVec<T> {
    /// The element at position `i`.
    pub open spec fn at(&self, i: usize) -> T {
        self@[i as int]
    }

    /// Constructs a new, empty arena.
    pub fn new() -> (v: Self)
        ensures
            v@ == Seq::<T>::empty(),
    {
        FrozenVec { vec: Vec::new() }
    }

    /// Appends an element to the back of the arena.
    pub fn push(&mut self, val: T)
        ensures
            final(self)@ == old(self)@.push(val),
    {
        self.vec.push(val);
    }

    /// Appends an element and hands back a reference to it in its place.
    pub fn push_get(&mut self, val: T) -> (r: &T)
        ensures
            *r == val,
            final(self)@ == old(self)@.push(val),
    {
        self.vec.push(val);
        let last = self.vec.len() - 1;
        &self.vec[last]
    }

    /// Returns a reference to the element at `index`, or `None` if there is none.
    pub fn get(&self, index: usize) -> (r: Option<&T>)
        ensures
            index < self@.len() ==> r == Some(&self.at(index)),
            index >= self@.len() ==> r is None,
    {
        if index < self.vec.len() {
            Some(&self.vec[index])
        } else {
            None
        }
    }

    /// Returns a reference to the element at `index`, which must be in bounds.
    pub fn get_unchecked(&self, index: usize) -> (r: &T)
        requires
            index < self@.len(),
        ensures
            *r == self.at(index),
    {
        &self.vec[index]
    }

    /// Returns a reference to the element at `idx`, which must be in bounds.
    pub fn index(&self, idx: usize) -> (r: &T)
        requires
            idx < self@.len(),
        ensures
            *r == self.at(idx),
    {
        &self.vec[idx]
    }

    /// Returns the number of elements in the arena.
    pub fn len(&self) -> (n: usize)
        ensures
            n == self@.len(),
    {
        self.vec.len()
    }

    /// Returns `true` if the arena contains no elements.
    pub fn is_empty(&self) -> (b: bool)
        ensures
            b <==> self@.len() == 0,
    {
        self.vec.len() == 0
    }

    /// Returns the first element of the arena, or `None` if it is empty.
    pub fn first(&self) -> (r: Option<&T>)
        ensures
            self@.len() == 0 ==> r is None,
            self@.len() > 0 ==> r == Some(&self@[0]),
    {
        if self.vec.len() == 0 {
            None
        } else {
            Some(&self.vec[0])
        }
    }

    /// Returns the last element of the arena, or `None` if it is empty.
    pub fn last(&self) -> (r: Option<&T>)
        ensures
            self@.len() == 0 ==> r is None,
            self@.len() > 0 ==> r == Some(&self@.last()),
    {
        let n = self.vec.len();
        if n == 0 {
            None
        } else {
            Some(&self.vec[n - 1])
        }
    }

    /// Returns a cursor over the arena that starts at its first element.
    pub fn iter(&self) -> (it: Iter<'_, T>)
        ensures
            it.source() == self@,
            it.position() == 0,
    {
        Iter { vec: self, idx: 0 }
    }

    /// Converts the arena into a plain vector.
    pub fn into_vec(self) -> (v: Vec<T>)
        ensures
            v@ == self@,
    {
        self.vec
    }

    /// Gives exclusive access to the underlying vector.
    ///
    /// Holding `&mut self` rules out that anything else is looking at the elements, so
    /// the caller may restructure them freely.
    pub fn as_mut(&mut self) -> (v: &mut Vec<T>)
        ensures
            v@ == old(self)@,
            final(self)@ == final(v)@,
    {
        &mut self.vec
    }

    /// Binary searches this arena for `x`, by the order of `T`.
    ///
    /// See [`FrozenVec::binary_search_by`]; the comparator asks how an element compares
    /// to `x`.
    pub fn binary_search(&self, x: &T) -> (r: Result<usize, usize>) where T: Ord
        ensures
            match r {
                Ok(i) => i < self@.len() && call_ensures(T::cmp, (&self.at(i), x), Ordering::Equal),
                Err(i) => {
                    &&& i <= self@.len()
                    &&& i > 0 ==> call_ensures(T::cmp, (&self@[i - 1], x), Ordering::Less)
                    &&& i < self@.len() ==> call_ensures(T::cmp, (&self.at(i), x), Ordering::Greater)
                },
            },
            forall|lo: int, hi: int|
                ordered_around(self@, x, lo, hi) ==> match r {
                    Ok(i) => lo <= i < hi,
                    Err(i) => i == lo && lo == hi,
                },
    {
        let probe = |p: &T| -> (o: Ordering)
            ensures
                call_ensures(T::cmp, (p, x), o),
            { p.cmp(x) };
        assert forall|lo: int, hi: int| ordered_around(self@, x, lo, hi) implies ordered_by(
            probe,
            self@,
            lo,
            hi,
        ) by {}
        self.binary_search_by(probe)
    }

    /// Binary searches this arena with a comparator, which says how an element compares
    /// to what is searched for.
    ///
    /// `Ok(i)` is the position of an element the comparator called `Equal`. `Err(i)` is a
    /// position where the comparator called the element before it `Less` and the element
    /// at it `Greater`, as far as those exist. If the arena is ordered by the comparator,
    /// `Ok` is returned exactly when an `Equal` element exists, and `Err(i)` is the one
    /// position at which such an element could be inserted keeping the order.
    pub fn binary_search_by<F: Fn(&T) -> Ordering>(&self, f: F) -> (r: Result<usize, usize>)
        requires
            forall|j: int| 0 <= j < self@.len() ==> f.requires((&#[trigger] self@[j],)),
        ensures
            match r {
                Ok(i) => i < self@.len() && f.ensures((&self.at(i),), Ordering::Equal),
                Err(i) => {
                    &&& i <= self@.len()
                    &&& i > 0 ==> f.ensures((&self@[i - 1],), Ordering::Less)
                    &&& i < self@.len() ==> f.ensures((&self.at(i),), Ordering::Greater)
                },
            },
            forall|lo: int, hi: int|
                ordered_by(f, self@, lo, hi) ==> match r {
                    Ok(i) => lo <= i < hi,
                    Err(i) => i == lo && lo == hi,
                },
    {
        let mut size = self.len();
        let mut left: usize = 0;
        let mut right: usize = size;
        while left < right
            invariant
                left <= right <= self@.len(),
                size == right - left,
                forall|j: int| 0 <= j < self@.len() ==> f.requires((&#[trigger] self@[j],)),
                left > 0 ==> f.ensures((&self@[left - 1],), Ordering::Less),
                right < self@.len() ==> f.ensures((&self.at(right),), Ordering::Greater),
            decreases right - left,
        {
            let mid = left + size / 2;
            let found = f(self.get_unchecked(mid));
            match found {
                Ordering::Less => {
                    left = mid + 1;
                },
                Ordering::Greater => {
                    right = mid;
                },
                Ordering::Equal => {
                    return Ok(mid);
                },
            }
            size = right - left;
        }
        Err(left)
    }

    /// Binary searches this arena with a key extraction function, by the order of the
    /// keys.
    ///
    /// See [`FrozenVec::binary_search_by`]; the comparator asks how the key of an element
    /// compares to `b`.
    pub fn binary_search_by_key<B: Ord, F: Fn(&T) -> B>(&self, b: &B, f: F) -> (r: Result<
        usize,
        usize,
    >)
        requires
            forall|j: int| 0 <= j < self@.len() ==> f.requires((&#[trigger] self@[j],)),
        ensures
            match r {
                Ok(i) => i < self@.len() && key_compares(f, self.at(i), b, Ordering::Equal),
                Err(i) => {
                    &&& i <= self@.len()
                    &&& i > 0 ==> key_compares(f, self@[i - 1], b, Ordering::Less)
                    &&& i < self@.len() ==> key_compares(f, self.at(i), b, Ordering::Greater)
                },
            },
            forall|lo: int, hi: int|
                keys_ordered_around(f, self@, b, lo, hi) ==> match r {
                    Ok(i) => lo <= i < hi,
                    Err(i) => i == lo && lo == hi,
                },
    {
        let extract = &f;
        let probe = |k: &T| -> (o: Ordering)
            requires
                extract.requires((k,)),
            ensures
                key_compares(*extract, *k, b, o),
            {
                let key = extract(k);
                key.cmp(b)
            };
        assert forall|lo: int, hi: int| keys_ordered_around(f, self@, b, lo, hi) implies ordered_by(
            probe,
            self@,
            lo,
            hi,
        ) by {}
        self.binary_search_by(probe)
    }

    /// Returns the index of the partition point according to the given predicate: the
    /// index of the first element of the second partition.
    ///
    /// The predicate held on the element before the returned position and failed on the
    /// element at it, as far as those exist. If the predicate can only hold on the first
    /// `k` elements and only fail on the others, `k` is returned.
    pub fn partition_point<P: Fn(&T) -> bool>(&self, pred: P) -> (r: usize)
        requires
            forall|j: int| 0 <= j < self@.len() ==> pred.requires((&#[trigger] self@[j],)),
        ensures
            r <= self@.len(),
            r > 0 ==> pred.ensures((&self@[r - 1],), true),
            r < self@.len() ==> pred.ensures((&self.at(r),), false),
            forall|k: int| partitioned_by(pred, self@, k) ==> r == k,
    {
        let mut left: usize = 0;
        let mut right: usize = self.len();
        while left != right
            invariant
                left <= right <= self@.len(),
                forall|j: int| 0 <= j < self@.len() ==> pred.requires((&#[trigger] self@[j],)),
                left > 0 ==> pred.ensures((&self@[left - 1],), true),
                right < self@.len() ==> pred.ensures((&self.at(right),), false),
            decreases right - left,
        {
            let mid = left + (right - left) / 2;
            let value = self.get_unchecked(mid);
            if pred(value) {
                left = mid + 1;
            } else {
                right = mid;
            }
        }
        left
    }
}

/// The key that `f` extracts from `x` may compare to `b` as `o`.
pub open spec fn key_compares<T, B: Ord, F: Fn(&T) -> B>(f: F, x: T, b: &B, o: Ordering) -> bool {
    exists|key: B| f.ensures((&x,), key) && call_ensures(B::cmp, (&key, b), o)
}

impl<T> Default for FrozenVec<T> {
    fn default() -> (v: Self)
        ensures
            v@ == Seq::<T>::empty(),
    {
        FrozenVec::new()
    }
}

impl<T> vstd::std_specs::convert::FromSpecImpl<Vec<T>> for FrozenVec<T> {
    open spec fn obeys_from_spec() -> bool {
        true
    }

    closed spec fn from_spec(vec: Vec<T>) -> Self {
        FrozenVec { vec }
    }
}

impl<T> From<Vec<T>> for FrozenVec<T> {
    /// Makes an arena of the elements of `vec`, in their order.
    fn from(vec: Vec<T>) -> (v: Self)
        ensures
            v@ == vec@,
    {
        FrozenVec { vec }
    }
}

impl<'a, T> vstd::std_specs::convert::FromSpecImpl<&'a FrozenVec<T>> for FrozenSlice<'a, T> {
    /// Which view of the arena comes out is not said, only what it shows: see `from`.
    open spec fn obeys_from_spec() -> bool {
        false
    }

    open spec fn from_spec(vec: &'a FrozenVec<T>) -> Self {
        choose|s: Self| s@ == vec@
    }
}

impl<'a, T> From<&'a FrozenVec<T>> for FrozenSlice<'a, T> {
    /// Views all the elements of an arena.
    fn from(vec: &'a FrozenVec<T>) -> (s: Self)
        ensures
            s@ == vec@,
    {
        FrozenSlice(vec.vec.as_slice())
    }
}

impl<'a, T> vstd::std_specs::convert::FromSpecImpl<&'a [T]> for FrozenSlice<'a, T> {
    open spec fn obeys_from_spec() -> bool {
        true
    }

    closed spec fn from_spec(slice: &'a [T]) -> Self {
        FrozenSlice(slice)
    }
}

impl<'a, T> From<&'a [T]> for FrozenSlice<'a, T> {
    /// Views a plain slice.
    fn from(slice: &'a [T]) -> (s: Self)
        ensures
            s@ == slice@,
    {
        FrozenSlice(slice)
    }
}

impl<'a, T> Iter<'a, T> {
    /// The elements of the arena being walked.
    pub closed spec fn source(&self) -> Seq<T> {
        self.vec@
    }

    /// The position of the element that [`Iter::next`] yields next.
    pub closed spec fn position(&self) -> usize {
        self.idx
    }

    /// Yields the element at the cursor and moves on, or `None` at the end.
    pub fn next(&mut self) -> (r: Option<&'a T>)
        ensures
            final(self).source() == old(self).source(),
            old(self).position() < old(self).source().len() ==> {
                &&& r == Some(&old(self).source()[old(self).position() as int])
                &&& final(self).position() == old(self).position() + 1
            },
            old(self).position() >= old(self).source().len() ==> {
                &&& r is None
                &&& final(self).position() == old(self).position()
            },
    {
        let vec: &'a FrozenVec<T> = self.vec;
        if self.idx < vec.len() {
            let ret = vec.get_unchecked(self.idx);
            self.idx = self.idx + 1;
            Some(ret)
        } else {
            None
        }
    }

    /// The bounds on the number of elements left to yield: none is promised, and at most
    /// as many as the arena holds are left.
    pub fn size_hint(&self) -> (r: (usize, Option<usize>))
        ensures
            r.0 == 0,
            r.1 == Some(self.source().len() as usize),
    {
        (0, Some(self.vec.len()))
    }
}

impl<'a, T> FrozenSlice<'a, T> {
    /// The element at position `i`.
    pub open spec fn at(&self, i: usize) -> T {
        self@[i as int]
    }

    /// Returns a cursor over the view that starts at its first element.
    pub fn iter(&self) -> (it: FrozenSliceIter<'a, T>)
        ensures
            it.source() == self@,
            it.position() == 0,
    {
        FrozenSliceIter { slice: self.0, idx: 0 }
    }

    /// Returns a reference to the element at `index`, which must be in bounds.
    pub fn get_unchecked(&self, index: usize) -> (r: &'a T)
        requires
            index < self@.len(),
        ensures
            *r == self.at(index),
    {
        let slice: &'a [T] = self.0;
        &slice[index]
    }

    /// Returns the number of elements in the view.
    pub fn len(&self) -> (n: usize)
        ensures
            n == self@.len(),
    {
        self.0.len()
    }
}

impl<'a, T> Clone for FrozenSlice<'a, T> {
    fn clone(&self) -> (s: Self)
        ensures
            s == *self,
    {
        FrozenSlice(self.0)
    }
}

impl<'a, T> Copy for FrozenSlice<'a, T> {

}

impl<'a, T> FrozenSliceIter<'a, T> {
    /// The cursor is within the view or at its end.
    #[verifier::type_invariant]
    spec fn in_bounds(&self) -> bool {
        self.idx <= self.slice@.len()
    }

    /// The elements of the view being walked.
    pub closed spec fn source(&self) -> Seq<T> {
        self.slice@
    }

    /// The position of the element that [`FrozenSliceIter::next`] yields next.
    pub closed spec fn position(&self) -> usize {
        self.idx
    }

    /// Yields the element at the cursor and moves on, or `None` at the end.
    pub fn next(&mut self) -> (r: Option<&'a T>)
        ensures
            final(self).source() == old(self).source(),
            old(self).position() < old(self).source().len() ==> {
                &&& r == Some(&old(self).source()[old(self).position() as int])
                &&& final(self).position() == old(self).position() + 1
            },
            old(self).position() >= old(self).source().len() ==> {
                &&& r is None
                &&& final(self).position() == old(self).position()
            },
    {
        let slice: &'a [T] = self.slice;
        if self.idx < slice.len() {
            let ret = &slice[self.idx];
            self.idx = self.idx + 1;
            Some(ret)
        } else {
            None
        }
    }

    /// The exact number of elements left to yield, as both bounds.
    pub fn size_hint(&self) -> (r: (usize, Option<usize>))
        ensures
            self.position() <= self.source().len(),
            r.0 == self.source().len() - self.position(),
            r.1 == Some(r.0),
    {
        proof {
            use_type_invariant(self);
        }
        let left = self.slice.len() - self.idx;
        (left, Some(left))
    }
}

} // verus!
