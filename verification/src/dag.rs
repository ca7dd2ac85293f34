//! The graph, and the facades through which its cells are read.
use crate::dag_uid::RxDAGUid;
use crate::misc::frozen_vec::{FrozenSlice, FrozenVec};
use crate::misc::slice_split3::SliceSplit3;
use crate::model::{
    backward_offsets, captured, changes, edge_in_place, graph_wf, is_output, is_output_of,
    is_variable, keeps_cells, lemma_marked_cells, lemma_new_edge_keeps_wf,
    lemma_new_variable_keeps_wf, lemma_pass_cell, lemma_pass_edge,
    lemma_pass_edge_ready, lemma_pass_ends, lemma_pass_keeps_wf, lemma_pending_keeps_wf,
    marked_cells, modified_by, pass_reached, pending_set, producer, recomputed, seen_from,
    seen_in_pass, with_edge, RxSubDAGView,
};
use crate::rx_compute::{
    callable_on, stands_for, Compute1, Compute2, Compute3, Compute4, Compute5, Effect, RxCompute,
    RxRoutine,
};
use crate::rx_impl::{
    lemma_views_joined, lemma_views_of_parts, views, with_pending, RxDAGElem, RxEdgeImpl,
    RxEdgeView, RxElemView, RxImpl,
};
use crate::rx_ref::{CRx, RxRef, Var};
use vstd::prelude::*;

verus! {

/// A facade through which cells can be read.
///
/// A snapshot of a graph is one, and so is the input that a compute routine is handed.
/// Reading through the input of a compute routine also records which cell was read, so
/// that the graph learns what the routine depends on.
pub trait RxContext<'a, V> {
    /// The part of the graph that can be read through this facade.
    spec fn graph(&self) -> RxSubDAGView<V>;

    /// For each position, whether a cell was read there through this facade.
    /// Positions past the end of the sequence are not recorded.
    spec fn read_marks(&self) -> Seq<bool>;

    /// Returns the part of the graph that can be read through this facade.
    fn sub_dag(&self) -> (sub: RxSubDAG<'a, V>)
        ensures
            sub@ == self.graph(),
    ;

    /// Records that the cell at `index` is being read.
    fn note_read(&mut self, index: usize)
        ensures
            final(self).graph() == old(self).graph(),
            final(self).read_marks() == with_read(old(self).read_marks(), index),
    ;
}

/// `marks` with position `index` marked as well, if the sequence reaches that far.
pub open spec fn with_read(marks: Seq<bool>, index: usize) -> Seq<bool> {
    if index < marks.len() {
        marks.update(index as int, true)
    } else {
        marks
    }
}

/// The elements of a graph before some position, with the identity of the graph.
pub struct RxSubDAG<'a, V> {
    pub before: FrozenSlice<'a, RxDAGElem<V>>,
    pub index: usize,
    pub id: RxDAGUid,
}

/// What a compute routine is handed to read cells through.
///
/// It records the positions that are read, for the graph to learn the dependencies of the
/// routine from.
pub struct RxInput<'a, V> {
    pub sub: RxSubDAG<'a, V>,
    pub did_read: Vec<bool>,
}

impl<'a, V> View for RxSubDAG<'a, V> {
    type V = RxSubDAGView<V>;

    open spec fn view(&self) -> RxSubDAGView<V> {
        RxSubDAGView { before: views(self.before@), index: self.index, id: self.id }
    }
}

impl<'a, V> Clone for RxSubDAG<'a, V> {
    fn clone(&self) -> (sub: Self)
        ensures
            sub == *self,
    {
        RxSubDAG { before: self.before, index: self.index, id: self.id }
    }
}

impl<'a, V> Copy for RxSubDAG<'a, V> {

}

impl<'a, V> RxInput<'a, V> {
    /// An input over `sub` that records reads: no position is marked yet.
    pub fn recording(sub: RxSubDAG<'a, V>) -> (input: Self)
        ensures
            input.sub == sub,
            input.did_read@ == Seq::new(sub.index as nat, |j: int| false),
    {
        let mut did_read: Vec<bool> = Vec::new();
        let mut j: usize = 0;
        while j < sub.index
            invariant
                j <= sub.index,
                did_read@ == Seq::new(j as nat, |k: int| false),
            decreases sub.index - j,
        {
            did_read.push(false);
            j = j + 1;
        }
        RxInput { sub, did_read }
    }

    /// An input over `sub` that keeps no record of what is read.
    pub fn passing(sub: RxSubDAG<'a, V>) -> (input: Self)
        ensures
            input.sub == sub,
            input.did_read@.len() == 0,
    {
        RxInput { sub, did_read: Vec::new() }
    }

    /// Reports the positions of the cells that were read since the last report, in
    /// increasing order, and forgets them.
    pub fn post_read(&mut self) -> (positions: Vec<usize>)
        ensures
            positions@ == marked_cells(
                old(self).sub@.before,
                old(self).did_read@,
                old(self).sub@.before.len(),
            ),
            final(self).sub == old(self).sub,
            final(self).did_read@ == Seq::new(old(self).did_read@.len(), |j: int| false),
    {
        let mut results: Vec<usize> = Vec::new();
        let n = self.sub.before.len();
        let ghost before = self.sub@.before;
        let ghost marks = self.did_read@;
        let mut index: usize = 0;
        while index < n
            invariant
                index <= n,
                n == self.sub.before@.len(),
                self.sub == old(self).sub,
                before == old(self).sub@.before,
                marks == old(self).did_read@,
                self.did_read@.len() == marks.len(),
                forall|j: int| 0 <= j < marks.len() && j < index ==> !self.did_read@[j],
                forall|j: int| index <= j < marks.len() ==> self.did_read@[j] == marks[j],
                results@ == marked_cells(before, marks, index as nat),
            decreases n - index,
        {
            if index < self.did_read.len() {
                let was_read = self.did_read[index];
                self.did_read[index] = false;
                let current = self.sub.before.get_unchecked(index);
                if was_read && current.as_node().is_some() {
                    results.push(index);
                }
            }
            index = index + 1;
        }
        let mut rest: usize = index;
        while rest < self.did_read.len()
            invariant
                self.sub == old(self).sub,
                self.did_read@.len() == marks.len(),
                forall|j: int| 0 <= j < marks.len() && j < rest ==> !self.did_read@[j],
            decreases self.did_read@.len() - rest,
        {
            self.did_read[rest] = false;
            rest = rest + 1;
        }
        results
    }
}

impl<'a, V> RxContext<'a, V> for RxInput<'a, V> {
    open spec fn graph(&self) -> RxSubDAGView<V> {
        self.sub@
    }

    open spec fn read_marks(&self) -> Seq<bool> {
        self.did_read@
    }

    fn sub_dag(&self) -> (sub: RxSubDAG<'a, V>) {
        self.sub
    }

    fn note_read(&mut self, index: usize) {
        if index < self.did_read.len() {
            self.did_read[index] = true;
        }
    }
}

/// The centralized structure which contains all the interconnected reactive values.
///
/// The graph is one sequence of cells and edges, in the order in which they were created.
/// A variable is a cell alone; a computed value is a cell that follows the edge that
/// writes it. An edge only reads cells that come before it, so the order of creation is
/// an order in which everything can be recomputed in one pass, and the graph is acyclic
/// by construction.
///
/// Nothing is ever removed: the graph only grows for as long as it lives.
#[verifier::reject_recursive_types(V)]
pub struct RxDAG<'c, V> {
    elems: FrozenVec<RxDAGElem<V>>,
    routines: Vec<RxRoutine<'c, V>>,
    id: RxDAGUid,
}

/// A read-only facade of a whole graph, as it stands.
#[verifier::reject_recursive_types(V)]
pub struct RxDAGSnapshot<'a, 'c, V>(&'a RxDAG<'c, V>);

impl<'c, V> View for RxDAG<'c, V> {
    type V = Seq<RxElemView<V>>;

    closed spec fn view(&self) -> Seq<RxElemView<V>> {
        views(self.elems@)
    }
}

impl<'c, V> RxDAG<'c, V> {
    /// The compute routines of the edges, in the order in which the edges were created.
    pub closed spec fn routines(&self) -> Seq<RxRoutine<'c, V>> {
        self.routines@
    }

    /// The identity of this graph.
    pub closed spec fn graph_id(&self) -> RxDAGUid {
        self.id
    }

    /// No edge holds anything in its scratch buffer.
    pub closed spec fn tidy(&self) -> bool {
        forall|i: int| 0 <= i < self.elems@.len() ==> (#[trigger] self.elems@[i]).is_tidy()
    }

    /// The graph is well formed and at rest: every edge is in its place, no pass is under
    /// way, every routine fits its edge, and every computed cell holds what its routine
    /// may produce from the present values of its dependencies.
    pub open spec fn wf(&self) -> bool {
        &&& graph_wf(self@, self.routines(), self.graph_id())
        &&& self.tidy()
    }

    /// What can be read of this graph: all of it.
    pub open spec fn whole(&self) -> RxSubDAGView<V> {
        RxSubDAGView { before: self@, index: self@.len() as usize, id: self.graph_id() }
    }

    /// Creates an empty graph, with the identity that follows the last one issued from
    /// `uids`.
    ///
    /// Graphs that are created from one counter all differ in their identities.
    pub fn new(uids: &mut usize) -> (g: Self)
        requires
            *old(uids) < usize::MAX,
        ensures
            *final(uids) == *old(uids) + 1,
            g.graph_id() == RxDAGUid(*final(uids)),
            g@ == Seq::<RxElemView<V>>::empty(),
            g.routines() == Seq::<RxRoutine<'c, V>>::empty(),
            g.wf(),
    {
        let g = RxDAG { elems: FrozenVec::new(), routines: Vec::new(), id: RxDAGUid::next(uids) };
        g
    }

    /// Creates a variable in this graph, with `init` as its value.
    pub fn new_var(&mut self, init: V) -> (var: Var<V>)
        requires
            old(self).wf(),
        ensures
            final(self).wf(),
            keeps_cells(old(self)@, final(self)@),
            final(self)@ == old(self)@.push(RxElemView::Node(RxImpl::new_spec(init))),
            final(self).routines() == old(self).routines(),
            final(self).graph_id() == old(self).graph_id(),
            var.raw_spec().untyped().index() == old(self)@.len(),
            var.raw_spec().untyped().graph_id() == old(self).graph_id(),
            var.is_var_of(final(self)),
    {
        let index = self.next_index();
        let rx = RxImpl::new(init);
        self.elems.push(RxDAGElem::Node(rx));
        proof {
            assert(self@ =~= old(self)@.push(RxElemView::Node(RxImpl::new_spec(init))));
            lemma_new_variable_keeps_wf(
                old(self)@,
                self.routines(),
                self.graph_id(),
                RxImpl::new_spec(init),
            );
        }
        Var::new(RxRef::new(self, index))
    }

    /// The function `compute` may be called on every input that has the shape of this
    /// graph: the same identity, as many elements, and cells in the same places.
    pub open spec fn welcomes<T, F: Fn(&mut RxInput<'_, V>) -> T>(&self, compute: F) -> bool {
        forall|seen: RxSubDAGView<V>|
            seen_from(seen, self@, self@.len() as int, self.graph_id()) ==> #[trigger] callable_on(
                compute,
                seen,
            )
    }

    /// The edge that is added to this graph for a routine of `num_outputs` outputs whose
    /// first run left the read marks `marks`.
    pub open spec fn edge_for(&self, marks: Seq<bool>, num_outputs: usize) -> RxEdgeView {
        RxEdgeView {
            offsets: captured(self.whole(), marks),
            num_outputs,
            routine: self.routines().len() as usize,
            runs: 1,
        }
    }

    /// `later` has the routines of this graph, and after them one that behaves as
    /// `routine` does.
    pub open spec fn routines_with<R: RxCompute<V>>(
        &self,
        later: &RxDAG<'c, V>,
        routine: R,
    ) -> bool {
        &&& later.routines().len() == self.routines().len() + 1
        &&& later.routines().subrange(0, self.routines().len() as int) == self.routines()
        &&& stands_for(later.routines().last(), routine)
    }

    /// Runs `compute` now, and again in every recompute pass in which one of the cells it
    /// read now has changed. It has no output: it is run for its side effects.
    pub fn run_crx<F: Fn(&mut RxInput<'_, V>) + 'c>(&mut self, compute: F)
        requires
            old(self).wf(),
            old(self).welcomes(compute),
        ensures
            final(self).wf(),
            keeps_cells(old(self)@, final(self)@),
            final(self).graph_id() == old(self).graph_id(),
            old(self).routines_with(final(self), Effect(compute)),
            exists|seen: &mut RxInput<'_, V>|
                {
                    &&& seen.sub@ == old(self).whole()
                    &&& seen.did_read@ == Seq::new(old(self)@.len(), |j: int| false)
                    &&& #[trigger] compute.ensures((seen,), ())
                    &&& final(self)@ == with_edge(
                        old(self)@,
                        old(self).edge_for(final(seen).did_read@, 0),
                        Seq::empty(),
                    )
                },
    {
        let mut input_backwards_offsets = Vec::new();
        let mut input = RxInput::recording(self.sub_dag());
        let () = Self::run_compute(&compute, &mut input, &mut input_backwards_offsets);
        let ghost first = choose|seen: &mut RxInput<'_, V>|
            {
                &&& seen.sub@ == old(self).whole()
                &&& seen.did_read@ == Seq::new(old(self)@.len(), |j: int| false)
                &&& #[trigger] compute.ensures((seen,), ())
                &&& input_backwards_offsets@ == captured(
                    old(self).whole(),
                    final(seen).did_read@,
                )
            };
        let routine = self.routines.len();
        let compute_edge = RxEdgeImpl::new(input_backwards_offsets, 0, routine);
        let kept = RxRoutine::effect(compute);
        self.routines.push(kept);
        self.elems.push(RxDAGElem::Edge(compute_edge));
        let ghost outputs = Seq::<V>::empty();
        proof {
            let edge = old(self).edge_for(final(first).did_read@, 0);
            assert(self@ =~= with_edge(old(self)@, edge, outputs));
            assert(self.routines().subrange(0, old(self).routines().len() as int) =~= old(
                self,
            ).routines());
            lemma_new_edge_keeps_wf(
                old(self)@,
                old(self).routines(),
                self.graph_id(),
                edge,
                kept,
                final(first).did_read@,
                outputs,
            );
        }
    }

    /// Creates a computed value in this graph.
    ///
    /// `compute` is run now to get the first value, and again in every recompute pass in
    /// which one of the cells it read now has changed.
    pub fn new_crx<F: Fn(&mut RxInput<'_, V>) -> V + 'c>(&mut self, compute: F) -> (crx:
        CRx<V>)
        requires
            old(self).wf(),
            old(self).welcomes(compute),
        ensures
            final(self).wf(),
            keeps_cells(old(self)@, final(self)@),
            final(self).graph_id() == old(self).graph_id(),
            old(self).routines_with(final(self), Compute1(compute)),
            crx.names(old(self)@.len() + 1, old(self).graph_id()),
            crx.raw_spec().untyped().valid_in(final(self).whole()),
            exists|seen: &mut RxInput<'_, V>, init: V|
                {
                    &&& seen.sub@ == old(self).whole()
                    &&& seen.did_read@ == Seq::new(old(self)@.len(), |j: int| false)
                    &&& #[trigger] compute.ensures((seen,), init)
                    &&& final(self)@ == with_edge(
                        old(self)@,
                        old(self).edge_for(final(seen).did_read@, 1),
                        seq![init],
                    )
                },
    {
        let mut input_backwards_offsets = Vec::new();
        let mut input = RxInput::recording(self.sub_dag());
        let init = Self::run_compute(&compute, &mut input, &mut input_backwards_offsets);
        let ghost first = choose|seen: &mut RxInput<'_, V>|
            {
                &&& seen.sub@ == old(self).whole()
                &&& seen.did_read@ == Seq::new(old(self)@.len(), |j: int| false)
                &&& #[trigger] compute.ensures((seen,), init)
                &&& input_backwards_offsets@ == captured(
                    old(self).whole(),
                    final(seen).did_read@,
                )
            };
        let routine = self.routines.len();
        let compute_edge = RxEdgeImpl::new(input_backwards_offsets, 1, routine);
        let kept = RxRoutine::one(compute);
        self.routines.push(kept);
        self.elems.push(RxDAGElem::Edge(compute_edge));
        let ghost outputs = seq![init];
        self.elems.push(RxDAGElem::Node(RxImpl::new(init)));
        let end = self.next_index();
        proof {
            let edge = old(self).edge_for(final(first).did_read@, 1);
            assert(self@ =~= with_edge(old(self)@, edge, outputs));
            assert(self.routines().subrange(0, old(self).routines().len() as int) =~= old(
                self,
            ).routines());
            lemma_new_edge_keeps_wf(
                old(self)@,
                old(self).routines(),
                self.graph_id(),
                edge,
                kept,
                final(first).did_read@,
                outputs,
            );
        }
        CRx::new(RxRef::new(self, end - 1))
    }

    /// Creates 2 computed values in this graph which are produced by the same function.
    ///
    /// `compute` is run now to get the first values, and again in every recompute pass in
    /// which one of the cells it read now has changed.
    pub fn new_crx2<F: Fn(&mut RxInput<'_, V>) -> (V, V) + 'c>(
        &mut self,
        compute: F,
    ) -> (crx: (CRx<V>, CRx<V>))
        requires
            old(self).wf(),
            old(self).welcomes(compute),
        ensures
            final(self).wf(),
            keeps_cells(old(self)@, final(self)@),
            final(self).graph_id() == old(self).graph_id(),
            old(self).routines_with(final(self), Compute2(compute)),
            crx.0.names(old(self)@.len() + 1, old(self).graph_id()),
            crx.0.raw_spec().untyped().valid_in(final(self).whole()),
            crx.1.names(old(self)@.len() + 2, old(self).graph_id()),
            crx.1.raw_spec().untyped().valid_in(final(self).whole()),
            exists|
                seen: &mut RxInput<'_, V>,
                init1: V,
                init2: V,
            |
                {
                    &&& seen.sub@ == old(self).whole()
                    &&& seen.did_read@ == Seq::new(old(self)@.len(), |j: int| false)
                    &&& #[trigger] compute.ensures((seen,), (init1, init2))
                    &&& final(self)@ == with_edge(
                        old(self)@,
                        old(self).edge_for(final(seen).did_read@, 2),
                        seq![init1, init2],
                    )
                },
    {
        let mut input_backwards_offsets = Vec::new();
        let mut input = RxInput::recording(self.sub_dag());
        let (init1, init2) = Self::run_compute(
            &compute,
            &mut input,
            &mut input_backwards_offsets,
        );
        let ghost first = choose|seen: &mut RxInput<'_, V>|
            {
                &&& seen.sub@ == old(self).whole()
                &&& seen.did_read@ == Seq::new(old(self)@.len(), |j: int| false)
                &&& #[trigger] compute.ensures((seen,), (init1, init2))
                &&& input_backwards_offsets@ == captured(
                    old(self).whole(),
                    final(seen).did_read@,
                )
            };
        let routine = self.routines.len();
        let compute_edge = RxEdgeImpl::new(input_backwards_offsets, 2, routine);
        let kept = RxRoutine::two(compute);
        self.routines.push(kept);
        self.elems.push(RxDAGElem::Edge(compute_edge));
        let ghost outputs = seq![init1, init2];
        self.elems.push(RxDAGElem::Node(RxImpl::new(init1)));
        self.elems.push(RxDAGElem::Node(RxImpl::new(init2)));
        let end = self.next_index();
        proof {
            let edge = old(self).edge_for(final(first).did_read@, 2);
            assert(self@ =~= with_edge(old(self)@, edge, outputs));
            assert(self.routines().subrange(0, old(self).routines().len() as int) =~= old(
                self,
            ).routines());
            lemma_new_edge_keeps_wf(
                old(self)@,
                old(self).routines(),
                self.graph_id(),
                edge,
                kept,
                final(first).did_read@,
                outputs,
            );
        }
        (
            CRx::new(RxRef::new(self, end - 2)),
            CRx::new(RxRef::new(self, end - 1)),
        )
    }

    /// Creates 3 computed values in this graph which are produced by the same function.
    ///
    /// `compute` is run now to get the first values, and again in every recompute pass in
    /// which one of the cells it read now has changed.
    pub fn new_crx3<F: Fn(&mut RxInput<'_, V>) -> (V, V, V) + 'c>(
        &mut self,
        compute: F,
    ) -> (crx: (CRx<V>, CRx<V>, CRx<V>))
        requires
            old(self).wf(),
            old(self).welcomes(compute),
        ensures
            final(self).wf(),
            keeps_cells(old(self)@, final(self)@),
            final(self).graph_id() == old(self).graph_id(),
            old(self).routines_with(final(self), Compute3(compute)),
            crx.0.names(old(self)@.len() + 1, old(self).graph_id()),
            crx.0.raw_spec().untyped().valid_in(final(self).whole()),
            crx.1.names(old(self)@.len() + 2, old(self).graph_id()),
            crx.1.raw_spec().untyped().valid_in(final(self).whole()),
            crx.2.names(old(self)@.len() + 3, old(self).graph_id()),
            crx.2.raw_spec().untyped().valid_in(final(self).whole()),
            exists|
                seen: &mut RxInput<'_, V>,
                init1: V,
                init2: V,
                init3: V,
            |
                {
                    &&& seen.sub@ == old(self).whole()
                    &&& seen.did_read@ == Seq::new(old(self)@.len(), |j: int| false)
                    &&& #[trigger] compute.ensures((seen,), (init1, init2, init3))
                    &&& final(self)@ == with_edge(
                        old(self)@,
                        old(self).edge_for(final(seen).did_read@, 3),
                        seq![init1, init2, init3],
                    )
                },
    {
        let mut input_backwards_offsets = Vec::new();
        let mut input = RxInput::recording(self.sub_dag());
        let (init1, init2, init3) = Self::run_compute(
            &compute,
            &mut input,
            &mut input_backwards_offsets,
        );
        let ghost first = choose|seen: &mut RxInput<'_, V>|
            {
                &&& seen.sub@ == old(self).whole()
                &&& seen.did_read@ == Seq::new(old(self)@.len(), |j: int| false)
                &&& #[trigger] compute.ensures((seen,), (init1, init2, init3))
                &&& input_backwards_offsets@ == captured(
                    old(self).whole(),
                    final(seen).did_read@,
                )
            };
        let routine = self.routines.len();
        let compute_edge = RxEdgeImpl::new(input_backwards_offsets, 3, routine);
        let kept = RxRoutine::three(compute);
        self.routines.push(kept);
        self.elems.push(RxDAGElem::Edge(compute_edge));
        let ghost outputs = seq![init1, init2, init3];
        self.elems.push(RxDAGElem::Node(RxImpl::new(init1)));
        self.elems.push(RxDAGElem::Node(RxImpl::new(init2)));
        self.elems.push(RxDAGElem::Node(RxImpl::new(init3)));
        let end = self.next_index();
        proof {
            let edge = old(self).edge_for(final(first).did_read@, 3);
            assert(self@ =~= with_edge(old(self)@, edge, outputs));
            assert(self.routines().subrange(0, old(self).routines().len() as int) =~= old(
                self,
            ).routines());
            lemma_new_edge_keeps_wf(
                old(self)@,
                old(self).routines(),
                self.graph_id(),
                edge,
                kept,
                final(first).did_read@,
                outputs,
            );
        }
        (
            CRx::new(RxRef::new(self, end - 3)),
            CRx::new(RxRef::new(self, end - 2)),
            CRx::new(RxRef::new(self, end - 1)),
        )
    }

    /// Creates 4 computed values in this graph which are produced by the same function.
    ///
    /// `compute` is run now to get the first values, and again in every recompute pass in
    /// which one of the cells it read now has changed.
    pub fn new_crx4<F: Fn(&mut RxInput<'_, V>) -> (V, V, V, V) + 'c>(
        &mut self,
        compute: F,
    ) -> (crx: (CRx<V>, CRx<V>, CRx<V>, CRx<V>))
        requires
            old(self).wf(),
            old(self).welcomes(compute),
        ensures
            final(self).wf(),
            keeps_cells(old(self)@, final(self)@),
            final(self).graph_id() == old(self).graph_id(),
            old(self).routines_with(final(self), Compute4(compute)),
            crx.0.names(old(self)@.len() + 1, old(self).graph_id()),
            crx.0.raw_spec().untyped().valid_in(final(self).whole()),
            crx.1.names(old(self)@.len() + 2, old(self).graph_id()),
            crx.1.raw_spec().untyped().valid_in(final(self).whole()),
            crx.2.names(old(self)@.len() + 3, old(self).graph_id()),
            crx.2.raw_spec().untyped().valid_in(final(self).whole()),
            crx.3.names(old(self)@.len() + 4, old(self).graph_id()),
            crx.3.raw_spec().untyped().valid_in(final(self).whole()),
            exists|
                seen: &mut RxInput<'_, V>,
                init1: V,
                init2: V,
                init3: V,
                init4: V,
            |
                {
                    &&& seen.sub@ == old(self).whole()
                    &&& seen.did_read@ == Seq::new(old(self)@.len(), |j: int| false)
                    &&& #[trigger] compute.ensures((seen,), (init1, init2, init3, init4))
                    &&& final(self)@ == with_edge(
                        old(self)@,
                        old(self).edge_for(final(seen).did_read@, 4),
                        seq![init1, init2, init3, init4],
                    )
                },
    {
        let mut input_backwards_offsets = Vec::new();
        let mut input = RxInput::recording(self.sub_dag());
        let (init1, init2, init3, init4) = Self::run_compute(
            &compute,
            &mut input,
            &mut input_backwards_offsets,
        );
        let ghost first = choose|seen: &mut RxInput<'_, V>|
            {
                &&& seen.sub@ == old(self).whole()
                &&& seen.did_read@ == Seq::new(old(self)@.len(), |j: int| false)
                &&& #[trigger] compute.ensures((seen,), (init1, init2, init3, init4))
                &&& input_backwards_offsets@ == captured(
                    old(self).whole(),
                    final(seen).did_read@,
                )
            };
        let routine = self.routines.len();
        let compute_edge = RxEdgeImpl::new(input_backwards_offsets, 4, routine);
        let kept = RxRoutine::four(compute);
        self.routines.push(kept);
        self.elems.push(RxDAGElem::Edge(compute_edge));
        let ghost outputs = seq![init1, init2, init3, init4];
        self.elems.push(RxDAGElem::Node(RxImpl::new(init1)));
        self.elems.push(RxDAGElem::Node(RxImpl::new(init2)));
        self.elems.push(RxDAGElem::Node(RxImpl::new(init3)));
        self.elems.push(RxDAGElem::Node(RxImpl::new(init4)));
        let end = self.next_index();
        proof {
            let edge = old(self).edge_for(final(first).did_read@, 4);
            assert(self@ =~= with_edge(old(self)@, edge, outputs));
            assert(self.routines().subrange(0, old(self).routines().len() as int) =~= old(
                self,
            ).routines());
            lemma_new_edge_keeps_wf(
                old(self)@,
                old(self).routines(),
                self.graph_id(),
                edge,
                kept,
                final(first).did_read@,
                outputs,
            );
        }
        (
            CRx::new(RxRef::new(self, end - 4)),
            CRx::new(RxRef::new(self, end - 3)),
            CRx::new(RxRef::new(self, end - 2)),
            CRx::new(RxRef::new(self, end - 1)),
        )
    }

    /// Creates 5 computed values in this graph which are produced by the same function.
    ///
    /// `compute` is run now to get the first values, and again in every recompute pass in
    /// which one of the cells it read now has changed.
    pub fn new_crx5<F: Fn(&mut RxInput<'_, V>) -> (V, V, V, V, V) + 'c>(
        &mut self,
        compute: F,
    ) -> (crx: (CRx<V>, CRx<V>, CRx<V>, CRx<V>, CRx<V>))
        requires
            old(self).wf(),
            old(self).welcomes(compute),
        ensures
            final(self).wf(),
            keeps_cells(old(self)@, final(self)@),
            final(self).graph_id() == old(self).graph_id(),
            old(self).routines_with(final(self), Compute5(compute)),
            crx.0.names(old(self)@.len() + 1, old(self).graph_id()),
            crx.0.raw_spec().untyped().valid_in(final(self).whole()),
            crx.1.names(old(self)@.len() + 2, old(self).graph_id()),
            crx.1.raw_spec().untyped().valid_in(final(self).whole()),
            crx.2.names(old(self)@.len() + 3, old(self).graph_id()),
            crx.2.raw_spec().untyped().valid_in(final(self).whole()),
            crx.3.names(old(self)@.len() + 4, old(self).graph_id()),
            crx.3.raw_spec().untyped().valid_in(final(self).whole()),
            crx.4.names(old(self)@.len() + 5, old(self).graph_id()),
            crx.4.raw_spec().untyped().valid_in(final(self).whole()),
            exists|
                seen: &mut RxInput<'_, V>,
                init1: V,
                init2: V,
                init3: V,
                init4: V,
                init5: V,
            |
                {
                    &&& seen.sub@ == old(self).whole()
                    &&& seen.did_read@ == Seq::new(old(self)@.len(), |j: int| false)
                    &&& #[trigger] compute.ensures((seen,), (init1, init2, init3, init4, init5))
                    &&& final(self)@ == with_edge(
                        old(self)@,
                        old(self).edge_for(final(seen).did_read@, 5),
                        seq![init1, init2, init3, init4, init5],
                    )
                },
    {
        let mut input_backwards_offsets = Vec::new();
        let mut input = RxInput::recording(self.sub_dag());
        let (init1, init2, init3, init4, init5) = Self::run_compute(
            &compute,
            &mut input,
            &mut input_backwards_offsets,
        );
        let ghost first = choose|seen: &mut RxInput<'_, V>|
            {
                &&& seen.sub@ == old(self).whole()
                &&& seen.did_read@ == Seq::new(old(self)@.len(), |j: int| false)
                &&& #[trigger] compute.ensures((seen,), (init1, init2, init3, init4, init5))
                &&& input_backwards_offsets@ == captured(
                    old(self).whole(),
                    final(seen).did_read@,
                )
            };
        let routine = self.routines.len();
        let compute_edge = RxEdgeImpl::new(input_backwards_offsets, 5, routine);
        let kept = RxRoutine::five(compute);
        self.routines.push(kept);
        self.elems.push(RxDAGElem::Edge(compute_edge));
        let ghost outputs = seq![init1, init2, init3, init4, init5];
        self.elems.push(RxDAGElem::Node(RxImpl::new(init1)));
        self.elems.push(RxDAGElem::Node(RxImpl::new(init2)));
        self.elems.push(RxDAGElem::Node(RxImpl::new(init3)));
        self.elems.push(RxDAGElem::Node(RxImpl::new(init4)));
        self.elems.push(RxDAGElem::Node(RxImpl::new(init5)));
        let end = self.next_index();
        proof {
            let edge = old(self).edge_for(final(first).did_read@, 5);
            assert(self@ =~= with_edge(old(self)@, edge, outputs));
            assert(self.routines().subrange(0, old(self).routines().len() as int) =~= old(
                self,
            ).routines());
            lemma_new_edge_keeps_wf(
                old(self)@,
                old(self).routines(),
                self.graph_id(),
                edge,
                kept,
                final(first).did_read@,
                outputs,
            );
        }
        (
            CRx::new(RxRef::new(self, end - 5)),
            CRx::new(RxRef::new(self, end - 4)),
            CRx::new(RxRef::new(self, end - 3)),
            CRx::new(RxRef::new(self, end - 2)),
            CRx::new(RxRef::new(self, end - 1)),
        )
    }

    /// Runs `compute` on `input` and reports in `input_backwards_offsets` which cells it
    /// read, as backward offsets from the position of the input.
    fn run_compute<T, F: Fn(&mut RxInput<'_, V>) -> T>(
        compute: &F,
        input: &mut RxInput<'_, V>,
        input_backwards_offsets: &mut Vec<usize>,
    ) -> (result: T)
        requires
            old(input_backwards_offsets)@.len() == 0,
            old(input).sub.index == old(input).sub.before@.len(),
            callable_on(*compute, old(input).sub@),
        ensures
            exists|seen: &mut RxInput<'_, V>|
                {
                    &&& *seen == *old(input)
                    &&& #[trigger] compute.ensures((seen,), result)
                    &&& final(input_backwards_offsets)@ == captured(
                        old(input).sub@,
                        final(seen).did_read@,
                    )
                },
            final(input).sub == old(input).sub,
    {
        let sub = input.sub;
        let result = compute(input);
        let ghost marks = input.did_read@;
        // Whatever the routine did to the input, dependencies are looked up in the graph.
        input.sub = sub;
        let input_indices = input.post_read();
        proof {
            lemma_marked_cells(sub@.before, marks, sub.index as nat);
        }
        let mut k: usize = 0;
        while k < input_indices.len()
            invariant
                k <= input_indices@.len(),
                input_backwards_offsets@ == backward_offsets(input_indices@, sub.index).subrange(
                    0,
                    k as int,
                ),
                forall|m: int| 0 <= m < input_indices@.len() ==> #[trigger] input_indices@[m] < sub.index,
            decreases input_indices@.len() - k,
        {
            input_backwards_offsets.push(sub.index - input_indices[k]);
            assert(input_backwards_offsets@ =~= backward_offsets(input_indices@, sub.index).subrange(
                0,
                k + 1,
            ));
            k = k + 1;
        }
        result
    }

    /// All of this graph, as a compute routine that is added now sees it.
    fn sub_dag(&self) -> (sub: RxSubDAG<'_, V>)
        ensures
            sub@ == self.whole(),
            sub.index == sub.before@.len(),
    {
        RxSubDAG { before: FrozenSlice::from(&self.elems), index: self.elems.len(), id: self.id }
    }

    /// The position the next element will get.
    pub fn next_index(&self) -> (index: usize)
        ensures
            index == self@.len(),
    {
        self.elems.len()
    }

    /// The identity of this graph.
    pub fn id(&self) -> (id: RxDAGUid)
        ensures
            id == self.graph_id(),
    {
        self.id
    }

    /// Applies what is pending in the variables and recomputes the computed values.
    ///
    /// This is one pass over the elements in the order of their creation. A cell adopts what
    /// is pending in it. An edge reruns its routine if one of the cells it reads has
    /// changed in this pass, and what the routine produces is adopted by the outputs, which
    /// come right after the edge. After the pass nothing is pending.
    pub fn recompute(&mut self)
        requires
            old(self).wf(),
        ensures
            final(self).wf(),
            keeps_cells(old(self)@, final(self)@),
            recomputed(old(self)@, final(self)@, old(self).routines(), old(self).graph_id()),
            final(self).routines() == old(self).routines(),
            final(self).graph_id() == old(self).graph_id(),
    {
        let ghost start = self@;
        let ghost routines = self.routines();
        let ghost id = self.graph_id();
        let ghost mut outs: Seq<Seq<V>> = Seq::empty();
        let n = self.elems.len();
        let graph_id = self.id;
        let mut index: usize = 0;
        while index < n
            invariant
                index <= n,
                n == start.len(),
                self.routines() == routines,
                self.graph_id() == id,
                graph_id == id,
                graph_wf(start, routines, id),
                self.tidy(),
                pass_reached(start, self@, routines, id, outs, index as int),
            decreases n - index,
        {
            let ghost cur = self@;
            let ghost concrete = self.elems@;
            let ghost is_edge = start[index as int] is Edge;
            proof {
                lemma_views_of_parts(concrete, index as int);
                if is_edge {
                    lemma_pass_edge_ready(start, cur, routines, id, outs, index as int);
                } else {
                    lemma_pass_cell(start, cur, routines, id, outs, index as int);
                }
            }
            let elems = self.elems.as_mut();
            let (before, current, after) = elems.as_mut_slice().split3_mut(index);
            let ghost after_was = after@;
            current.recompute(index, before, after, graph_id, self.routines.as_slice());
            let ghost after_now = after@;
            let ghost current_now = *current;
            let ghost before_now = before@;
            proof {
                lemma_views_joined(before_now, current_now, after_now);
                let next = self@;
                if is_edge {
                    let edge = start[index as int].edge();
                    let seen = seen_in_pass(start, outs, index as int, id);
                    let fires = changes(start, index as int);
                    let routine = routines[edge.routine as int];
                    let later = views(after_now);
                    let outputs = if fires {
                        choose|outputs: Seq<V>|
                            {
                                &&& #[trigger] routine.yields(seen, outputs)
                                &&& outputs.len() == edge.num_outputs
                                &&& forall|t: int|
                                    0 <= t < later.len() ==> #[trigger] later[t] == (if t
                                        < edge.num_outputs {
                                        with_pending(views(after_was)[t], outputs[t])
                                    } else {
                                        views(after_was)[t]
                                    })
                            }
                    } else {
                        Seq::empty()
                    };
                    lemma_pass_edge(start, cur, next, routines, id, outs, index as int, outputs);
                    outs = outs.push(outputs);
                } else {
                    outs = outs.push(Seq::empty());
                }
            }
            index = index + 1;
        }
        let ghost passed = self@;
        let mut index: usize = 0;
        while index < n
            invariant
                index <= n,
                n == passed.len(),
                self@.len() == n,
                self.routines() == routines,
                self.graph_id() == id,
                self.tidy(),
                forall|j: int| 0 <= j < index ==> #[trigger] self@[j] == passed[j].settled(),
                forall|j: int| index <= j < n ==> #[trigger] self@[j] == passed[j],
            decreases n - index,
        {
            let ghost concrete = self.elems@;
            let ghost before = self@;
            let elems = self.elems.as_mut();
            elems[index].post_recompute();
            proof {
                assert(before[index as int] == concrete[index as int]@);
                assert forall|j: int| 0 <= j < n && j != index implies #[trigger] self@[j] == views(
                    concrete,
                )[j] by {}
            }
            index = index + 1;
        }
        proof {
            lemma_pass_ends(start, passed, self@, routines, id, outs);
            lemma_pass_keeps_wf(start, self@, routines, id);
        }
    }

    /// Recomputes and then returns a facade through which the current values can be read.
    pub fn now(&mut self) -> (snapshot: RxDAGSnapshot<'_, 'c, V>)
        requires
            old(self).wf(),
        ensures
            final(self).wf(),
            keeps_cells(old(self)@, final(self)@),
            recomputed(old(self)@, final(self)@, old(self).routines(), old(self).graph_id()),
            final(self).routines() == old(self).routines(),
            final(self).graph_id() == old(self).graph_id(),
            snapshot.graph() == final(self).whole(),
    {
        self.recompute();
        RxDAGSnapshot(self)
    }

    /// Returns a facade through which the current values can be read. Values that were
    /// set since the last recompute do not show until the next one.
    pub fn stale(&self) -> (snapshot: RxDAGSnapshot<'_, 'c, V>)
        ensures
            snapshot.graph() == self.whole(),
    {
        RxDAGSnapshot(self)
    }

    /// Whether the element at `index` is a variable: a cell that no edge writes.
    pub fn is_variable_at(&self, index: usize) -> (variable: bool)
        requires
            self.wf(),
        ensures
            variable == is_variable(self@, index as int),
    {
        if index >= self.elems.len() {
            return false;
        }
        if self.elems.get_unchecked(index).as_node().is_none() {
            return false;
        }
        let mut j: usize = index;
        while j > 0
            invariant
                j <= index < self@.len(),
                self.wf(),
                self@[index as int] is Node,
                forall|p: int| j <= p < index ==> #[trigger] self@[p] is Node,
            decreases j,
        {
            j = j - 1;
            match self.elems.get_unchecked(j) {
                RxDAGElem::Edge(edge) => {
                    let written = index - j <= edge.num_outputs;
                    proof {
                        if written {
                            assert(is_output_of(self@, index as int, j as int));
                        } else if is_output(self@, index as int) {
                            let p = producer(self@, index as int);
                            assert(edge_in_place(self@, p));
                        }
                    }
                    return !written;
                },
                RxDAGElem::Node(_) => {},
            }
        }
        true
    }

    /// Buffers `value` as the pending value of the cell at `index`.
    pub(crate) fn set_node(&mut self, index: usize, value: V)
        requires
            old(self).wf(),
            is_variable(old(self)@, index as int),
        ensures
            final(self).wf(),
            keeps_cells(old(self)@, final(self)@),
            final(self)@ == pending_set(old(self)@, index as int, value),
            final(self).routines() == old(self).routines(),
            final(self).graph_id() == old(self).graph_id(),
    {
        let elems = self.elems.as_mut();
        match &mut elems[index] {
            RxDAGElem::Node(rx) => {
                rx.set(value);
            },
            RxDAGElem::Edge(_) => {},
        }
        proof {
            assert(self@ =~= old(self)@.update(
                index as int,
                with_pending(old(self)@[index as int], value),
            ));
            lemma_pending_keeps_wf(old(self)@, self.routines(), self.graph_id(), index as int, value);
        }
    }

    /// Buffers as the pending value of the cell at `index` what `modify` makes of its
    /// latest value.
    pub(crate) fn modify_node<F: FnOnce(&V) -> V>(&mut self, index: usize, modify: F)
        requires
            old(self).wf(),
            is_variable(old(self)@, index as int),
            modify.requires((&old(self)@[index as int].cell().latest(),)),
        ensures
            final(self).wf(),
            keeps_cells(old(self)@, final(self)@),
            modified_by(old(self)@, final(self)@, index as int, modify),
            final(self).routines() == old(self).routines(),
            final(self).graph_id() == old(self).graph_id(),
    {
        let elems = self.elems.as_mut();
        let ghost mut made: Option<V> = None;
        match &mut elems[index] {
            RxDAGElem::Node(rx) => {
                let latest = rx.take_latest();
                let next = modify(latest.as_ref());
                proof {
                    made = Some(next);
                }
                rx.set(next);
            },
            RxDAGElem::Edge(_) => {},
        }
        proof {
            let value = made->Some_0;
            assert(self@ =~= old(self)@.update(
                index as int,
                with_pending(old(self)@[index as int], value),
            ));
            lemma_pending_keeps_wf(old(self)@, self.routines(), self.graph_id(), index as int, value);
        }
    }
}

impl<'a, 'c, V> Clone for RxDAGSnapshot<'a, 'c, V> {
    fn clone(&self) -> (snapshot: Self)
        ensures
            snapshot == *self,
    {
        RxDAGSnapshot(self.0)
    }
}

impl<'a, 'c, V> Copy for RxDAGSnapshot<'a, 'c, V> {

}

impl<'a, 'c, V> RxContext<'a, V> for RxDAGSnapshot<'a, 'c, V> {
    closed spec fn graph(&self) -> RxSubDAGView<V> {
        self.0.whole()
    }

    open spec fn read_marks(&self) -> Seq<bool> {
        Seq::empty()
    }

    fn sub_dag(&self) -> (sub: RxSubDAG<'a, V>) {
        let graph: &'a RxDAG<'c, V> = self.0;
        RxSubDAG { before: FrozenSlice::from(&graph.elems), index: graph.elems.len(), id: graph.id }
    }

    fn note_read(&mut self, index: usize) {
    }
}

} // verus!
