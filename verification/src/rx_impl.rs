//! The elements a graph is made of: cells (nodes) and edges.
use crate::dag::{RxInput, RxSubDAG};
use crate::dag_uid::RxDAGUid;
use crate::misc::frozen_vec::FrozenSlice;
use crate::model::{dependency, some_dependency_marked, RxSubDAGView};
use crate::rx_compute::RxRoutine;
use vstd::prelude::*;

verus! {

/// A reactive storage slot.
///
/// `current` is the value readers see. `next` buffers a value that was written since the
/// last recompute pass; the pass adopts it as `current` and raises `did_recompute` until
/// the pass is over.
pub struct RxImpl<V> {
    pub current: V,
    pub next: Option<V>,
    pub did_recompute: bool,
}

/// The latest value of a cell: its pending value if it had one, else its current value.
pub enum CurrentOrNext<'a, T> {
    Current(&'a T),
    Next(T),
}

impl<'a, T> CurrentOrNext<'a, T> {
    /// The value held, whichever side it came from.
    pub open spec fn value(self) -> T {
        match self {
            CurrentOrNext::Current(x) => *x,
            CurrentOrNext::Next(x) => x,
        }
    }

    /// Borrows the value held, whichever side it came from.
    pub fn as_ref(&self) -> (r: &T)
        ensures
            *r == self.value(),
    {
        match self {
            CurrentOrNext::Current(x) => x,
            CurrentOrNext::Next(x) => x,
        }
    }
}

impl<V> RxImpl<V> {
    /// The value a write issued now would build on: the pending value if there is one,
    /// else the current value.
    pub open spec fn latest(self) -> V {
        match self.next {
            Some(next) => next,
            None => self.current,
        }
    }

    /// The cell as it is once a pending value, if any, was adopted by a pass.
    pub open spec fn adopted(self) -> RxImpl<V> {
        RxImpl { current: self.latest(), next: None, did_recompute: self.next is Some }
    }

    /// A cell that holds `init` and has nothing pending.
    pub open spec fn new_spec(init: V) -> RxImpl<V> {
        RxImpl { current: init, next: None, did_recompute: false }
    }

    /// Creates a cell that holds `init` and has nothing pending.
    #[verifier::when_used_as_spec(new_spec)]
    pub fn new(init: V) -> (rx: Self)
        ensures
            rx == Self::new_spec(init),
    {
        RxImpl { current: init, next: None, did_recompute: false }
    }

    /// Returns the current value.
    pub fn get(&self) -> (value: &V)
        ensures
            *value == self.current,
    {
        &self.current
    }

    /// Takes the pending value if one is set, otherwise borrows the current value.
    /// The result of transforming it is meant to be stored back with [`RxImpl::set`].
    pub fn take_latest(&mut self) -> (latest: CurrentOrNext<'_, V>)
        ensures
            latest.value() == old(self).latest(),
            latest is Next <==> old(self).next is Some,
            final(self).current == old(self).current,
            final(self).next is None,
            final(self).did_recompute == old(self).did_recompute,
    {
        match self.next.take() {
            None => CurrentOrNext::Current(&self.current),
            Some(next) => CurrentOrNext::Next(next),
        }
    }

    /// Buffers `value` as the pending value, replacing an earlier one.
    pub fn set(&mut self, value: V)
        ensures
            *final(self) == (RxImpl { next: Some(value), ..*old(self) }),
    {
        self.next = Some(value);
    }

    /// Adopts the pending value, if any, and records whether there was one.
    pub fn recompute(&mut self)
        requires
            !old(self).did_recompute,
        ensures
            *final(self) == old(self).adopted(),
    {
        match self.next.take() {
            None => {},
            Some(next) => {
                self.current = next;
                self.did_recompute = true;
            },
        }
    }

    /// Whether the pass under way gave the cell a new value.
    pub fn did_recompute(&self) -> (changed: bool)
        ensures
            changed == self.did_recompute,
    {
        self.did_recompute
    }

    /// Clears the mark that a pass left on the cell.
    pub fn post_recompute(&mut self)
        ensures
            *final(self) == (RxImpl { did_recompute: false, ..*old(self) }),
    {
        self.did_recompute = false;
    }
}


/// A stored computation: which cells it reads, how many cells it writes, and which of the
/// graph's compute routines produces the values.
///
/// Dependencies are held as backward offsets, "how many elements before this edge", so
/// they stay valid however the graph grows. The outputs are the `num_outputs` elements
/// right after the edge.
pub struct RxEdgeImpl {
    pub input_backwards_offsets: Vec<usize>,
    pub num_outputs: usize,
    /// Scratch buffer for the resolved positions of the dependencies; empty between uses.
    pub cached_inputs: Vec<usize>,
    /// The position of the compute routine in the graph's table of routines.
    pub routine: usize,
    /// How many times the compute routine has been run for this edge.
    pub runs: Ghost<nat>,
}

/// What an edge is, apart from its scratch buffer.
pub struct RxEdgeView {
    pub offsets: Seq<usize>,
    pub num_outputs: usize,
    pub routine: usize,
    pub runs: nat,
}

/// One element of a graph: a cell or an edge.
pub enum RxDAGElem<V> {
    Node(RxImpl<V>),
    Edge(RxEdgeImpl),
}

/// What an element of a graph is: a cell as it stands, or the view of an edge.
pub enum RxElemView<V> {
    Node(RxImpl<V>),
    Edge(RxEdgeView),
}

impl View for RxEdgeImpl {
    type V = RxEdgeView;

    open spec fn view(&self) -> RxEdgeView {
        RxEdgeView {
            offsets: self.input_backwards_offsets@,
            num_outputs: self.num_outputs,
            routine: self.routine,
            runs: self.runs@,
        }
    }
}

impl<V> View for RxDAGElem<V> {
    type V = RxElemView<V>;

    open spec fn view(&self) -> RxElemView<V> {
        match self {
            RxDAGElem::Node(rx) => RxElemView::Node(*rx),
            RxDAGElem::Edge(edge) => RxElemView::Edge(edge@),
        }
    }
}

/// The views of a run of elements, in order.
pub open spec fn views<V>(elems: Seq<RxDAGElem<V>>) -> Seq<RxElemView<V>> {
    Seq::new(elems.len(), |i: int| elems[i]@)
}

impl<V> RxDAGElem<V> {
    /// The scratch buffer of an edge is empty; a cell has none.
    pub open spec fn is_tidy(&self) -> bool {
        self matches RxDAGElem::Edge(edge) ==> edge.cached_inputs@.len() == 0
    }

    /// This element, which stands at position `before.len()`, can be recomputed: a cell
    /// is not marked as changed; an edge reads cells of `before`, writes cells of `after`,
    /// and has a routine in `routines` that fits it and may be run on `before`.
    pub open spec fn ready_for(
        &self,
        before: Seq<RxElemView<V>>,
        after: Seq<RxElemView<V>>,
        graph_id: RxDAGUid,
        routines: Seq<RxRoutine<'_, V>>,
    ) -> bool {
        match self {
            RxDAGElem::Node(rx) => !rx.did_recompute,
            RxDAGElem::Edge(edge) => {
                &&& edge.cached_inputs@.len() == 0
                &&& edge.reads_cells_of(before)
                &&& edge.writes_cells_of(after)
                &&& edge.routine < routines.len()
                &&& routines[edge.routine as int].num_outputs() == edge.num_outputs
                &&& routines[edge.routine as int].accepts(
                    RxSubDAGView { before, index: before.len() as usize, id: graph_id },
                )
            },
        }
    }

    /// Recomputes this one element, which stands at position `index` between the
    /// elements `before` and `after`.
    ///
    /// A cell adopts what is pending in it. An edge reruns its routine if any of the
    /// cells it reads has changed in the pass under way; see [`RxEdgeImpl::recompute`].
    pub fn recompute(
        &mut self,
        index: usize,
        before: &[RxDAGElem<V>],
        after: &mut [RxDAGElem<V>],
        graph_id: RxDAGUid,
        routines: &[RxRoutine<'_, V>],
    )
        requires
            index == before@.len(),
            old(self).ready_for(views(before@), views(old(after)@), graph_id, routines@),
        ensures
            final(self).is_tidy(),
            forall|j: int|
                0 <= j < old(after)@.len() ==> (#[trigger] final(after)@[j]).is_tidy() == old(
                    after,
                )@[j].is_tidy(),
            final(after)@.len() == old(after)@.len(),
            match *old(self) {
                RxDAGElem::Node(rx) => {
                    &&& final(self)@ == RxElemView::Node(rx.adopted())
                    &&& views(final(after)@) == views(old(after)@)
                },
                RxDAGElem::Edge(edge) => {
                    &&& final(self)@ is Edge
                    &&& edge.recomputed_to(
                        final(self)@.edge(),
                        views(before@),
                        views(old(after)@),
                        views(final(after)@),
                        graph_id,
                        &routines@[edge.routine as int],
                    )
                },
            },
    {
        match self {
            RxDAGElem::Node(x) => {
                x.recompute();
            },
            RxDAGElem::Edge(x) => {
                let routine = &routines[x.routine];
                x.recompute(index, before, after, graph_id, routine);
            },
        }
    }

    /// Clears the "changed" mark a pass left on a cell; an edge has none.
    pub fn post_recompute(&mut self)
        ensures
            final(self)@ == old(self)@.settled(),
            final(self).is_tidy() == old(self).is_tidy(),
    {
        match self {
            RxDAGElem::Node(x) => x.post_recompute(),
            RxDAGElem::Edge(_) => {},
        }
    }

    /// The cell, if this element is one.
    pub fn as_node(&self) -> (node: Option<&RxImpl<V>>)
        ensures
            match self@ {
                RxElemView::Node(rx) => node == Some(&rx),
                RxElemView::Edge(_) => node is None,
            },
    {
        match self {
            RxDAGElem::Node(x) => Some(x),
            _ => None,
        }
    }
}

impl<V> RxElemView<V> {
    /// The element once the marks of a pass are cleared.
    pub open spec fn settled(self) -> RxElemView<V> {
        match self {
            RxElemView::Node(rx) => RxElemView::Node(RxImpl { did_recompute: false, ..rx }),
            RxElemView::Edge(edge) => RxElemView::Edge(edge),
        }
    }

    /// The cell that is there; meaningful only on a `Node`.
    pub open spec fn cell(self) -> RxImpl<V> {
        self->Node_0
    }

    /// The edge that is there; meaningful only on an `Edge`.
    pub open spec fn edge(self) -> RxEdgeView {
        self->Edge_0
    }
}

/// For each position of `before`, whether a cell that a pass has marked as changed is
/// there.
pub open spec fn change_marks<V>(before: Seq<RxElemView<V>>) -> Seq<bool> {
    Seq::new(before.len(), |j: int| before[j] is Node && before[j].cell().did_recompute)
}

/// The cell `cell` with `value` pending.
pub open spec fn with_pending<V>(elem: RxElemView<V>, value: V) -> RxElemView<V> {
    RxElemView::Node(RxImpl { next: Some(value), ..elem.cell() })
}

impl RxEdgeImpl {
    /// An edge whose routine has been run once, to find out what it reads.
    pub fn new(input_backwards_offsets: Vec<usize>, num_outputs: usize, routine: usize) -> (edge:
        Self)
        ensures
            edge@ == (RxEdgeView {
                offsets: input_backwards_offsets@,
                num_outputs,
                routine,
                runs: 1,
            }),
            edge.cached_inputs@.len() == 0,
    {
        let num_inputs = input_backwards_offsets.len();
        RxEdgeImpl {
            input_backwards_offsets,
            num_outputs,
            cached_inputs: Vec::with_capacity(num_inputs),
            routine,
            runs: Ghost(1),
        }
    }

    /// The forward offsets of the outputs, counted from the element after the edge: the
    /// outputs are always right after the edge.
    pub fn output_forwards_offsets(&self) -> (offsets: std::ops::Range<usize>)
        ensures
            offsets.start == 0,
            offsets.end == self.num_outputs,
    {
        0..self.num_outputs
    }

    /// The dependencies of this edge, which stands at position `before.len()`, are cells
    /// of `before`.
    pub open spec fn reads_cells_of<V>(&self, before: Seq<RxElemView<V>>) -> bool {
        forall|k: int|
            0 <= k < self@.offsets.len() ==> {
                &&& 1 <= #[trigger] self@.offsets[k] <= before.len()
                &&& before[dependency(before.len() as int, self@.offsets[k])] is Node
            }
    }

    /// The outputs of this edge are the first cells of `after`.
    pub open spec fn writes_cells_of<V>(&self, after: Seq<RxElemView<V>>) -> bool {
        &&& self.num_outputs <= after.len()
        &&& forall|j: int| 0 <= j < self.num_outputs ==> #[trigger] after[j] is Node
    }

    /// Reruns the routine if any of the dependencies changed in the pass under way, and
    /// buffers what it returns as the pending values of the outputs.
    ///
    /// `before` holds the elements before this edge, `after` those after it, and `index`
    /// is the position of the edge itself.
    pub fn recompute<V>(
        &mut self,
        index: usize,
        before: &[RxDAGElem<V>],
        after: &mut [RxDAGElem<V>],
        graph_id: RxDAGUid,
        routine: &RxRoutine<'_, V>,
    )
        requires
            index == before@.len(),
            old(self).cached_inputs@.len() == 0,
            old(self).reads_cells_of(views(before@)),
            old(self).writes_cells_of(views(old(after)@)),
            routine.num_outputs() == old(self).num_outputs,
            routine.accepts(RxSubDAGView { before: views(before@), index, id: graph_id }),
        ensures
            final(self).cached_inputs@.len() == 0,
            forall|j: int|
                0 <= j < old(after)@.len() ==> (#[trigger] final(after)@[j]).is_tidy() == old(
                    after,
                )@[j].is_tidy(),
            old(self).recomputed_to(
                final(self)@,
                views(before@),
                views(old(after)@),
                views(final(after)@),
                graph_id,
                routine,
            ),
    {
        let ghost offsets = self@.offsets;
        let ghost seen = views(before@);
        let num_inputs = self.input_backwards_offsets.len();
        let mut k: usize = 0;
        while k < num_inputs
            invariant
                k <= num_inputs,
                num_inputs == offsets.len(),
                index == before@.len(),
                seen == views(before@),
                self@ == old(self)@,
                self@.offsets == offsets,
                self.reads_cells_of(seen),
                self.cached_inputs@.len() == k,
                forall|m: int|
                    0 <= m < k ==> #[trigger] self.cached_inputs@[m] == dependency(
                        index as int,
                        offsets[m],
                    ),
            decreases num_inputs - k,
        {
            let offset = self.input_backwards_offsets[k];
            self.cached_inputs.push(before.len() - offset);
            k = k + 1;
        }
        let mut changed = false;
        let mut k: usize = 0;
        while k < num_inputs
            invariant
                k <= num_inputs,
                num_inputs == offsets.len(),
                index == before@.len(),
                seen == views(before@),
                self@ == old(self)@,
                self@.offsets == offsets,
                self.reads_cells_of(seen),
                self.cached_inputs@.len() == num_inputs,
                forall|m: int|
                    0 <= m < num_inputs ==> #[trigger] self.cached_inputs@[m] == dependency(
                        index as int,
                        offsets[m],
                    ),
                changed <==> exists|m: int|
                    0 <= m < k && change_marks(seen)[dependency(index as int, #[trigger] offsets[m])],
            decreases num_inputs - k,
        {
            let position = self.cached_inputs[k];
            let input = before[position].as_node().unwrap();
            if input.did_recompute() {
                changed = true;
            }
            k = k + 1;
        }
        if changed {
            let sub = RxSubDAG { before: FrozenSlice::from(before), index, id: graph_id };
            let mut input = RxInput::passing(sub);
            let mut outputs = routine.compute(&mut input);
            let ghost produced = outputs@;
            let forwards = self.output_forwards_offsets();
            let mut j: usize = forwards.end;
            while j > forwards.start
                invariant
                    forwards.start == 0,
                    j <= self.num_outputs,
                    self.num_outputs == produced.len(),
                    self.num_outputs <= old(after)@.len(),
                    outputs@ == produced.subrange(0, j as int),
                    after@.len() == old(after)@.len(),
                    old(self).writes_cells_of(views(old(after)@)),
                    self.num_outputs == old(self).num_outputs,
                    forall|m: int| 0 <= m < j ==> after@[m] == old(after)@[m],
                    forall|m: int| self.num_outputs <= m < after@.len() ==> after@[m] == old(after)@[m],
                    forall|m: int|
                        j <= m < self.num_outputs ==> {
                            &&& (#[trigger] after@[m]).is_tidy()
                            &&& after@[m]@ == with_pending(old(after)@[m]@, produced[m])
                        },
                decreases j,
            {
                j = j - 1;
                let value = outputs.pop().unwrap();
                assert(views(old(after)@)[j as int] is Node);
                match &mut after[j] {
                    RxDAGElem::Node(output) => {
                        output.set(value);
                    },
                    RxDAGElem::Edge(_) => {},
                }
            }
            self.runs = Ghost((self.runs@ + 1) as nat);
            proof {
                let was = views(old(after)@);
                assert forall|t: int| 0 <= t < old(after)@.len() implies (#[trigger] after@[t]).is_tidy()
                    == old(after)@[t].is_tidy() by {
                    if t < self.num_outputs {
                        assert(was[t] is Node);
                    }
                }
            }
        }
        self.cached_inputs.clear();
    }

    /// What [`RxEdgeImpl::recompute`] makes of this edge and of the elements after it:
    /// `edge` is this edge afterwards, `after` are the elements after it as they were and
    /// `later` as they are afterwards.
    ///
    /// If a dependency is marked as changed in `before`, the routine has run once, and
    /// what it produced is pending in the outputs. Otherwise nothing has changed.
    pub open spec fn recomputed_to<V>(
        &self,
        edge: RxEdgeView,
        before: Seq<RxElemView<V>>,
        after: Seq<RxElemView<V>>,
        later: Seq<RxElemView<V>>,
        graph_id: RxDAGUid,
        routine: &RxRoutine<'_, V>,
    ) -> bool {
        let fires = self.fires_on(before);
        &&& edge == (RxEdgeView {
            runs: self@.runs + (if fires {
                1nat
            } else {
                0nat
            }),
            ..self@
        })
        &&& later.len() == after.len()
        &&& !fires ==> later == after
        &&& fires ==> exists|outputs: Seq<V>|
            {
                &&& #[trigger] routine.yields(
                    RxSubDAGView { before, index: before.len() as usize, id: graph_id },
                    outputs,
                )
                &&& outputs.len() == self.num_outputs
                &&& forall|t: int|
                    0 <= t < after.len() ==> #[trigger] later[t] == (if t < self.num_outputs {
                        with_pending(after[t], outputs[t])
                    } else {
                        after[t]
                    })
            }
    }

    /// Some dependency of this edge, which stands at position `before.len()`, is marked
    /// in `before` as changed by the pass under way.
    pub open spec fn fires_on<V>(&self, before: Seq<RxElemView<V>>) -> bool {
        some_dependency_marked(self@.offsets, before.len() as int, change_marks(before))
    }
}

/// The views of the elements before and after a position are the views before and after
/// that position.
pub proof fn lemma_views_of_parts<V>(elems: Seq<RxDAGElem<V>>, i: int)
    requires
        0 <= i < elems.len(),
    ensures
        views(elems.subrange(0, i)) == views(elems).subrange(0, i),
        views(elems.subrange(i + 1, elems.len() as int)) == views(elems).subrange(
            i + 1,
            elems.len() as int,
        ),
{
}

/// The views of elements put together from three parts are the views of the parts put
/// together.
pub proof fn lemma_views_joined<V>(
    before: Seq<RxDAGElem<V>>,
    current: RxDAGElem<V>,
    after: Seq<RxDAGElem<V>>,
)
    ensures
        views(before.push(current) + after) == views(before).push(current@) + views(after),
{
}

} // verus!
