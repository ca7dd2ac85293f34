//! The mathematical model of a graph: what makes a sequence of elements a well-formed
//! graph, which cells and edges a recompute pass touches, and how the graph after a pass
//! relates to the graph before it.
//!
//! Everything here speaks of sequences of element views. Position `i` of the sequence is
//! the element with index `i` of the graph.
use crate::dag_uid::RxDAGUid;
use crate::rx_compute::RxRoutine;
use crate::rx_impl::{change_marks, with_pending, RxEdgeView, RxElemView, RxImpl};
use vstd::prelude::*;

verus! {

/// The part of a graph that a compute routine can see: the elements before position
/// `index`, and the identity of the graph.
pub struct RxSubDAGView<V> {
    pub before: Seq<RxElemView<V>>,
    pub index: usize,
    pub id: RxDAGUid,
}

/// `a` and `b` have cells at the same positions and edges at the same positions.
pub open spec fn same_shape<V>(a: Seq<RxElemView<V>>, b: Seq<RxElemView<V>>) -> bool {
    &&& a.len() == b.len()
    &&& forall|j: int| 0 <= j < a.len() ==> (#[trigger] a[j] is Node <==> b[j] is Node)
}

/// The element at `j` is one of the outputs of the edge at `p`.
pub open spec fn is_output_of<V>(g: Seq<RxElemView<V>>, j: int, p: int) -> bool {
    &&& 0 <= p < j < g.len()
    &&& g[p] is Edge
    &&& j <= p + g[p].edge().num_outputs
}

/// The element at `j` is an output of some edge: a computed cell, not a variable.
pub open spec fn is_output<V>(g: Seq<RxElemView<V>>, j: int) -> bool {
    exists|p: int| is_output_of(g, j, p)
}

/// The edge that writes the computed cell at `j`.
pub open spec fn producer<V>(g: Seq<RxElemView<V>>, j: int) -> int {
    choose|p: int| is_output_of(g, j, p)
}

/// The element at `j` is a variable: a cell that no edge writes.
pub open spec fn is_variable<V>(g: Seq<RxElemView<V>>, j: int) -> bool {
    &&& 0 <= j < g.len()
    &&& g[j] is Node
    &&& !is_output(g, j)
}

/// The position that the dependency at `offset` of the edge at `i` names.
pub open spec fn dependency(i: int, offset: usize) -> int {
    i - offset
}

/// The element at `i`, if it is an edge, is in its place: each of its dependencies is a
/// cell before it, and its outputs are the cells right after it.
pub open spec fn edge_in_place<V>(g: Seq<RxElemView<V>>, i: int) -> bool {
    g[i] matches RxElemView::Edge(edge) ==> {
        &&& forall|k: int|
            0 <= k < edge.offsets.len() ==> {
                &&& 1 <= #[trigger] edge.offsets[k] <= i
                &&& g[dependency(i, edge.offsets[k])] is Node
            }
        &&& i + edge.num_outputs < g.len()
        &&& forall|j: int| i < j <= i + edge.num_outputs ==> #[trigger] g[j] is Node
    }
}

/// Every edge of `g` is in its place.
pub open spec fn well_shaped<V>(g: Seq<RxElemView<V>>) -> bool {
    forall|i: int| 0 <= i < g.len() ==> #[trigger] edge_in_place(g, i)
}

/// No pass is under way: no cell is marked as changed, and no computed cell has a
/// pending value.
pub open spec fn at_rest<V>(g: Seq<RxElemView<V>>) -> bool {
    forall|j: int|
        0 <= j < g.len() && #[trigger] g[j] is Node ==> {
            &&& !g[j].cell().did_recompute
            &&& is_output(g, j) ==> g[j].cell().next is None
        }
}

/// Of the dependencies that an edge at position `i` holds as the backward offsets
/// `offsets`, one is marked in `marks`.
pub open spec fn some_dependency_marked(
    offsets: Seq<usize>,
    i: int,
    marks: Seq<bool>,
) -> bool {
    exists|k: int| 0 <= k < offsets.len() && marks[dependency(i, #[trigger] offsets[k])]
}

/// Whether the element at `i` changes in a pass that starts from `g`, given in `earlier`
/// which of the elements before it do.
///
/// A variable changes if it has a pending value. An edge changes (its routine runs) if
/// one of its dependencies changes. A computed cell changes if its edge does.
pub open spec fn changes_after<V>(g: Seq<RxElemView<V>>, earlier: Seq<bool>, i: int) -> bool {
    match g[i] {
        RxElemView::Node(rx) => if is_output(g, i) {
            earlier[producer(g, i)]
        } else {
            rx.next is Some
        },
        RxElemView::Edge(edge) => some_dependency_marked(edge.offsets, i, earlier),
    }
}

/// For each of the first `n` elements of `g`, whether it changes in a pass that starts
/// from `g`.
pub open spec fn changed_upto<V>(g: Seq<RxElemView<V>>, n: nat) -> Seq<bool>
    decreases n,
{
    if n == 0 {
        Seq::empty()
    } else {
        let earlier = changed_upto(g, (n - 1) as nat);
        earlier.push(changes_after(g, earlier, n - 1))
    }
}

/// Whether the element at `i` changes in a pass that starts from `g`: for a cell, whether
/// the pass gives it a new value; for an edge, whether the pass runs its routine.
pub open spec fn changes<V>(g: Seq<RxElemView<V>>, i: int) -> bool {
    changed_upto(g, (i + 1) as nat)[i]
}

/// The edge at `i` has a dependency that changes in a pass that starts from `g`.
pub open spec fn has_changed_dependency<V>(g: Seq<RxElemView<V>>, i: int) -> bool {
    exists|k: int|
        0 <= k < g[i].edge().offsets.len() && changes(
            g,
            dependency(i, #[trigger] g[i].edge().offsets[k]),
        )
}

/// The element `now` of the graph after a pass, as it was during the pass once the pass
/// had dealt with it: a cell still carries the mark that says whether it changed.
pub open spec fn during_pass<V>(now: RxElemView<V>, changed: bool) -> RxElemView<V> {
    match now {
        RxElemView::Node(rx) => RxElemView::Node(RxImpl { did_recompute: changed, ..rx }),
        RxElemView::Edge(edge) => RxElemView::Edge(edge),
    }
}

/// What the routine of the edge at `p` saw when a pass from `old` to `new` ran it: the
/// elements before `p`, already dealt with by the pass.
pub open spec fn seen_by<V>(
    old: Seq<RxElemView<V>>,
    new: Seq<RxElemView<V>>,
    p: int,
    id: RxDAGUid,
) -> RxSubDAGView<V> {
    RxSubDAGView {
        before: Seq::new(p as nat, |j: int| during_pass(new[j], changes(old, j))),
        index: p as usize,
        id,
    }
}

/// Those of the first `n` positions that are marked in `marks` and hold a cell in
/// `before`, in increasing order.
pub open spec fn marked_cells<V>(before: Seq<RxElemView<V>>, marks: Seq<bool>, n: nat) -> Seq<
    usize,
>
    decreases n,
{
    if n == 0 {
        Seq::empty()
    } else {
        let earlier = marked_cells(before, marks, (n - 1) as nat);
        if n - 1 < marks.len() && n - 1 < before.len() && marks[n - 1] && before[n - 1] is Node {
            earlier.push((n - 1) as usize)
        } else {
            earlier
        }
    }
}

/// The positions `positions`, as backward offsets seen from position `index`.
pub open spec fn backward_offsets(positions: Seq<usize>, index: usize) -> Seq<usize> {
    Seq::new(positions.len(), |k: int| (index - positions[k]) as usize)
}

/// The dependencies that an edge at the end of `graph` captures from the reads recorded
/// in `marks`: the marked cells in increasing order, as backward offsets.
pub open spec fn captured<V>(graph: RxSubDAGView<V>, marks: Seq<bool>) -> Seq<usize> {
    backward_offsets(marked_cells(graph.before, marks, graph.before.len()), graph.index)
}

/// What is seen from the edge at `i` of the graph `g` with identity `id` has the shape of
/// `seen`: the same position, the same identity, and cells and edges in the same places.
pub open spec fn seen_from<V>(
    seen: RxSubDAGView<V>,
    g: Seq<RxElemView<V>>,
    i: int,
    id: RxDAGUid,
) -> bool {
    &&& seen.index == i
    &&& seen.id == id
    &&& same_shape(seen.before, g.subrange(0, i))
}

/// The routine of every edge of `g` is in `routines`, produces as many values as the edge
/// has outputs, and may be run on whatever has the shape of what is seen from the edge.
pub open spec fn routines_fit<V>(
    g: Seq<RxElemView<V>>,
    routines: Seq<RxRoutine<'_, V>>,
    id: RxDAGUid,
) -> bool {
    forall|i: int|
        0 <= i < g.len() && #[trigger] g[i] is Edge ==> {
            &&& g[i].edge().routine < routines.len()
            &&& routines[g[i].edge().routine as int].num_outputs() == g[i].edge().num_outputs
            &&& forall|seen: RxSubDAGView<V>|
                seen_from(seen, g, i, id) ==> #[trigger] routines[g[i].edge().routine as int].accepts(
                    seen,
                )
        }
}

/// `seen` holds, for every dependency of the edge at `i`, the value the cell has in `g`.
pub open spec fn agrees_on_dependencies<V>(
    seen: Seq<RxElemView<V>>,
    g: Seq<RxElemView<V>>,
    i: int,
) -> bool {
    forall|k: int|
        0 <= k < g[i].edge().offsets.len() ==> seen[dependency(
            i,
            #[trigger] g[i].edge().offsets[k],
        )].cell().current == g[dependency(i, g[i].edge().offsets[k])].cell().current
}

/// The outputs of the edge at `i` hold the values `outputs`, in order.
pub open spec fn outputs_hold<V>(g: Seq<RxElemView<V>>, i: int, outputs: Seq<V>) -> bool {
    &&& outputs.len() == g[i].edge().num_outputs
    &&& forall|j: int|
        i < j <= i + g[i].edge().num_outputs ==> (#[trigger] g[j]).cell().current == outputs[j - i
            - 1]
}

/// The outputs of the edge at `i` hold what its routine may produce from the values that
/// its dependencies hold: there is something the routine may have seen, in which the
/// dependencies have their present values, and from which it may produce the present
/// values of the outputs.
pub open spec fn edge_consistent<V>(
    g: Seq<RxElemView<V>>,
    routines: Seq<RxRoutine<'_, V>>,
    id: RxDAGUid,
    i: int,
) -> bool {
    exists|seen: RxSubDAGView<V>, outputs: Seq<V>|
        {
            &&& seen_from(seen, g, i, id)
            &&& agrees_on_dependencies(seen.before, g, i)
            &&& #[trigger] routines[g[i].edge().routine as int].yields(seen, outputs)
            &&& outputs_hold(g, i, outputs)
        }
}

/// Every edge of `g` is consistent: every computed cell holds what the routine of its
/// edge may produce from the present values of its dependencies.
pub open spec fn consistent<V>(
    g: Seq<RxElemView<V>>,
    routines: Seq<RxRoutine<'_, V>>,
    id: RxDAGUid,
) -> bool {
    forall|i: int| 0 <= i < g.len() && #[trigger] g[i] is Edge ==> edge_consistent(g, routines, id, i)
}

/// `g` with the routines `routines` and the identity `id` is a graph at rest.
pub open spec fn graph_wf<V>(
    g: Seq<RxElemView<V>>,
    routines: Seq<RxRoutine<'_, V>>,
    id: RxDAGUid,
) -> bool {
    &&& well_shaped(g)
    &&& at_rest(g)
    &&& routines_fit(g, routines, id)
    &&& consistent(g, routines, id)
}

/// Whatever names a cell of `old` names a cell of `new`, and whatever names a variable of
/// `old` names a variable of `new`: `new` has a cell wherever `old` has one, and the same
/// of them are computed.
pub open spec fn keeps_cells<V>(old: Seq<RxElemView<V>>, new: Seq<RxElemView<V>>) -> bool {
    &&& old.len() <= new.len()
    &&& forall|j: int| 0 <= j < old.len() ==> (#[trigger] old[j] is Node <==> new[j] is Node)
    &&& forall|j: int| 0 <= j < old.len() ==> (#[trigger] is_output(old, j) <==> is_output(new, j))
}

/// The graph `g` with `value` pending in the cell at `j`.
pub open spec fn pending_set<V>(g: Seq<RxElemView<V>>, j: int, value: V) -> Seq<RxElemView<V>> {
    g.update(j, with_pending(g[j], value))
}

/// `h` is what a transformation `modify` of the latest value of the cell at `j` makes of
/// the graph `g`: what `modify` may return for the latest value is pending in the cell.
pub open spec fn modified_by<V, F: FnOnce(&V) -> V>(
    g: Seq<RxElemView<V>>,
    h: Seq<RxElemView<V>>,
    j: int,
    modify: F,
) -> bool {
    &&& h[j].cell().next is Some
    &&& modify.ensures((&g[j].cell().latest(),), h[j].cell().latest())
    &&& h == pending_set(g, j, h[j].cell().latest())
}

/// A graph at rest stays one when a value becomes pending in one of its variables.
pub proof fn lemma_pending_keeps_wf<V>(
    g: Seq<RxElemView<V>>,
    routines: Seq<RxRoutine<'_, V>>,
    id: RxDAGUid,
    j: int,
    value: V,
)
    requires
        graph_wf(g, routines, id),
        is_variable(g, j),
    ensures
        graph_wf(pending_set(g, j, value), routines, id),
        keeps_cells(g, pending_set(g, j, value)),
{
    let h = pending_set(g, j, value);
    lemma_same_edges_keep_wf(g, h, routines, id);
    assert forall|t: int| 0 <= t < g.len() implies (#[trigger] is_output(g, t) <==> is_output(h, t)) by {
        lemma_same_outputs(g, h, t);
    }
}

/// `h` differs from `g` at most in what is pending in cells.
pub open spec fn same_but_pending<V>(g: Seq<RxElemView<V>>, h: Seq<RxElemView<V>>) -> bool {
    &&& h.len() == g.len()
    &&& forall|i: int|
        0 <= i < g.len() ==> match #[trigger] g[i] {
            RxElemView::Edge(edge) => h[i] == g[i],
            RxElemView::Node(rx) => h[i] is Node && h[i].cell().current == rx.current,
        }
}

/// Whether a cell is an output depends only on where the edges are.
pub proof fn lemma_same_outputs<V>(g: Seq<RxElemView<V>>, h: Seq<RxElemView<V>>, j: int)
    requires
        same_but_pending(g, h),
    ensures
        is_output(g, j) == is_output(h, j),
{
    if is_output(g, j) {
        let p = producer(g, j);
        assert(is_output_of(h, j, p));
    }
    if is_output(h, j) {
        let p = producer(h, j);
        assert(is_output_of(g, j, p));
    }
}

/// A graph at rest stays one when only what is pending in its variables changes.
pub proof fn lemma_same_edges_keep_wf<V>(
    g: Seq<RxElemView<V>>,
    h: Seq<RxElemView<V>>,
    routines: Seq<RxRoutine<'_, V>>,
    id: RxDAGUid,
)
    requires
        graph_wf(g, routines, id),
        same_but_pending(g, h),
        forall|j: int|
            0 <= j < g.len() && #[trigger] g[j] is Node ==> {
                &&& !h[j].cell().did_recompute
                &&& is_output(g, j) ==> h[j].cell().next is None
            },
    ensures
        graph_wf(h, routines, id),
{
    assert forall|i: int| 0 <= i < h.len() implies #[trigger] edge_in_place(h, i) by {
        assert(edge_in_place(g, i));
        if h[i] is Edge {
            let edge = h[i].edge();
            assert forall|j: int| i < j <= i + edge.num_outputs implies #[trigger] h[j] is Node by {
                assert(g[j] is Node);
            }
        }
    }
    assert forall|j: int| 0 <= j < h.len() && #[trigger] h[j] is Node implies {
        &&& !h[j].cell().did_recompute
        &&& is_output(h, j) ==> h[j].cell().next is None
    } by {
        lemma_same_outputs(g, h, j);
        assert(g[j] is Node);
    }
    assert forall|i: int| 0 <= i < h.len() && #[trigger] h[i] is Edge implies {
        &&& h[i].edge().routine < routines.len()
        &&& routines[h[i].edge().routine as int].num_outputs() == h[i].edge().num_outputs
        &&& forall|seen: RxSubDAGView<V>|
            seen_from(seen, h, i, id) ==> #[trigger] routines[h[i].edge().routine as int].accepts(seen)
    } by {
        assert(g[i] is Edge);
    }
    assert forall|i: int| 0 <= i < h.len() && #[trigger] h[i] is Edge implies edge_consistent(
        h,
        routines,
        id,
        i,
    ) by {
        assert(edge_in_place(g, i));
        let (seen, outputs) = choose|seen: RxSubDAGView<V>, outputs: Seq<V>|
            {
                &&& seen_from(seen, g, i, id)
                &&& agrees_on_dependencies(seen.before, g, i)
                &&& #[trigger] routines[g[i].edge().routine as int].yields(seen, outputs)
                &&& outputs_hold(g, i, outputs)
            };
        assert forall|j: int| i < j <= i + h[i].edge().num_outputs implies (#[trigger] h[j]).cell().current
            == outputs[j - i - 1] by {
            assert(g[j] is Node);
        }
    }
}

/// A graph at rest stays one when a new variable is added at its end.
pub proof fn lemma_new_variable_keeps_wf<V>(
    g: Seq<RxElemView<V>>,
    routines: Seq<RxRoutine<'_, V>>,
    id: RxDAGUid,
    rx: RxImpl<V>,
)
    requires
        graph_wf(g, routines, id),
        !rx.did_recompute,
    ensures
        graph_wf(g.push(RxElemView::Node(rx)), routines, id),
        is_variable(g.push(RxElemView::Node(rx)), g.len() as int),
        keeps_cells(g, g.push(RxElemView::Node(rx))),
{
    let h = g.push(RxElemView::Node(rx));
    assert(h.subrange(0, g.len() as int) =~= g);
    lemma_extension_keeps_edges(g, h, routines, routines, id);
    assert(!is_output(h, g.len() as int)) by {
        if is_output(h, g.len() as int) {
            let p = producer(h, g.len() as int);
            assert(edge_in_place(g, p));
        }
    }
    assert forall|t: int| 0 <= t < g.len() implies (#[trigger] is_output(g, t) <==> is_output(h, t)) by {
        lemma_extension_same_outputs(g, h, t);
    }
}

/// `h` is `g` with more elements at its end.
pub open spec fn extends<V>(g: Seq<RxElemView<V>>, h: Seq<RxElemView<V>>) -> bool {
    &&& g.len() <= h.len()
    &&& h.subrange(0, g.len() as int) == g
}

/// Adding elements at the end of a well-shaped graph does not turn any of its cells into
/// an output.
pub proof fn lemma_extension_same_outputs<V>(g: Seq<RxElemView<V>>, h: Seq<RxElemView<V>>, j: int)
    requires
        extends(g, h),
        0 <= j < g.len(),
    ensures
        is_output(g, j) == is_output(h, j),
{
    if is_output(g, j) {
        let p = producer(g, j);
        assert(is_output_of(h, j, p));
    }
    if is_output(h, j) {
        let p = producer(h, j);
        assert(is_output_of(g, j, p));
    }
}

/// Adding elements at the end of a graph at rest leaves every edge it had in its place,
/// fitted with its routine and consistent, whatever routines are added as well.
pub proof fn lemma_extension_keeps_edges<V>(
    g: Seq<RxElemView<V>>,
    h: Seq<RxElemView<V>>,
    earlier: Seq<RxRoutine<'_, V>>,
    routines: Seq<RxRoutine<'_, V>>,
    id: RxDAGUid,
)
    requires
        graph_wf(g, earlier, id),
        extends(g, h),
        earlier.len() <= routines.len(),
        forall|k: int| 0 <= k < earlier.len() ==> #[trigger] routines[k] == earlier[k],
    ensures
        forall|i: int| 0 <= i < g.len() ==> #[trigger] edge_in_place(h, i),
        forall|i: int|
            0 <= i < g.len() && #[trigger] h[i] is Edge ==> {
                &&& h[i].edge().routine < routines.len()
                &&& routines[h[i].edge().routine as int].num_outputs() == h[i].edge().num_outputs
                &&& forall|seen: RxSubDAGView<V>|
                    seen_from(seen, h, i, id) ==> #[trigger] routines[h[i].edge().routine as int].accepts(
                        seen,
                    )
                &&& edge_consistent(h, routines, id, i)
            },
{
    assert(forall|i: int| 0 <= i < g.len() ==> h.subrange(0, g.len() as int)[i] == h[i]);
    assert forall|i: int| 0 <= i < g.len() implies #[trigger] edge_in_place(h, i) by {
        assert(edge_in_place(g, i));
    }
    assert forall|i: int| 0 <= i < g.len() && #[trigger] h[i] is Edge implies {
        &&& h[i].edge().routine < routines.len()
        &&& routines[h[i].edge().routine as int].num_outputs() == h[i].edge().num_outputs
        &&& forall|seen: RxSubDAGView<V>|
            seen_from(seen, h, i, id) ==> #[trigger] routines[h[i].edge().routine as int].accepts(seen)
        &&& edge_consistent(h, routines, id, i)
    } by {
        assert(edge_in_place(g, i));
        assert(routines[g[i].edge().routine as int] == earlier[g[i].edge().routine as int]);
    }
}

/// Every position that `marked_cells` reports is among the first `n`, is marked, and holds
/// a cell.
pub proof fn lemma_marked_cells<V>(before: Seq<RxElemView<V>>, marks: Seq<bool>, n: nat)
    requires
        n <= usize::MAX,
    ensures
        forall|k: int|
            0 <= k < marked_cells(before, marks, n).len() ==> {
                let position = #[trigger] marked_cells(before, marks, n)[k];
                &&& position < n
                &&& position < before.len()
                &&& position < marks.len()
                &&& marks[position as int]
                &&& before[position as int] is Node
            },
    decreases n,
{
    if n > 0 {
        lemma_marked_cells(before, marks, (n - 1) as nat);
    }
}

/// The graph `g` with a new edge at its end, followed by cells that hold `outputs`.
pub open spec fn with_edge<V>(
    g: Seq<RxElemView<V>>,
    edge: RxEdgeView,
    outputs: Seq<V>,
) -> Seq<RxElemView<V>> {
    g.push(RxElemView::Edge(edge)) + Seq::new(
        outputs.len(),
        |k: int| RxElemView::Node(RxImpl::new_spec(outputs[k])),
    )
}

/// What is seen of all of the graph `g` with identity `id`.
pub open spec fn all_of<V>(g: Seq<RxElemView<V>>, id: RxDAGUid) -> RxSubDAGView<V> {
    RxSubDAGView { before: g, index: g.len() as usize, id }
}

/// A graph at rest stays one when an edge is added at its end together with its outputs,
/// if the edge reads cells of the graph, its routine may be run on whatever has the shape
/// of the graph, and the outputs hold what the routine produced from the graph.
pub proof fn lemma_new_edge_keeps_wf<V>(
    g: Seq<RxElemView<V>>,
    routines: Seq<RxRoutine<'_, V>>,
    id: RxDAGUid,
    edge: RxEdgeView,
    routine: RxRoutine<'_, V>,
    marks: Seq<bool>,
    outputs: Seq<V>,
)
    requires
        graph_wf(g, routines, id),
        g.len() <= usize::MAX,
        edge.offsets == captured(all_of(g, id), marks),
        edge.num_outputs == outputs.len(),
        edge.routine == routines.len(),
        routine.num_outputs() == outputs.len(),
        forall|seen: RxSubDAGView<V>| seen_from(seen, g, g.len() as int, id) ==> #[trigger] routine.accepts(seen),
        routine.yields(all_of(g, id), outputs),
    ensures
        graph_wf(with_edge(g, edge, outputs), routines.push(routine), id),
        keeps_cells(g, with_edge(g, edge, outputs)),
        forall|j: int|
            g.len() < j <= g.len() + outputs.len() ==> #[trigger] is_output_of(
                with_edge(g, edge, outputs),
                j,
                g.len() as int,
            ),
{
    let h = with_edge(g, edge, outputs);
    let e = g.len() as int;
    let added = routines.push(routine);
    assert(h.subrange(0, e) =~= g);
    lemma_extension_keeps_edges(g, h, routines, added, id);
    lemma_marked_cells(g, marks, g.len());
    assert forall|i: int| 0 <= i < h.len() && #[trigger] h[i] is Edge implies {
        &&& h[i].edge().routine < added.len()
        &&& added[h[i].edge().routine as int].num_outputs() == h[i].edge().num_outputs
        &&& forall|seen: RxSubDAGView<V>|
            seen_from(seen, h, i, id) ==> #[trigger] added[h[i].edge().routine as int].accepts(seen)
    } by {}
    assert forall|t: int| 0 <= t < g.len() implies (#[trigger] is_output(g, t) <==> is_output(h, t)) by {
        lemma_extension_same_outputs(g, h, t);
    }
}

/// The edge `edge` once a pass has dealt with it: its routine has run once more if the
/// edge changed.
pub open spec fn edge_passed(edge: RxEdgeView, changed: bool) -> RxEdgeView {
    RxEdgeView {
        runs: edge.runs + (if changed {
            1nat
        } else {
            0nat
        }),
        ..edge
    }
}

/// The cell at `j` is as a pass from `old` to `new` leaves a cell: nothing is pending in
/// it, it is not marked as changed, and if it is a variable it holds what was its latest
/// value.
pub open spec fn cell_after_pass<V>(old: Seq<RxElemView<V>>, new: Seq<RxElemView<V>>, j: int) -> bool {
    &&& new[j] is Node
    &&& new[j].cell().next is None
    &&& !new[j].cell().did_recompute
    &&& !is_output(old, j) ==> new[j].cell().current == old[j].cell().latest()
}

/// The edge at `p` and its outputs are as a pass from `old` to `new` leaves them: if one
/// of its dependencies changed, its routine has run once, on the elements before the
/// edge as the pass left them, and the outputs hold what it produced; if none did, the
/// routine has not run and the outputs hold what they held.
pub open spec fn edge_after_pass<V>(
    old: Seq<RxElemView<V>>,
    new: Seq<RxElemView<V>>,
    routines: Seq<RxRoutine<'_, V>>,
    id: RxDAGUid,
    p: int,
) -> bool {
    &&& new[p] == RxElemView::<V>::Edge(edge_passed(old[p].edge(), changes(old, p)))
    &&& changes(old, p) ==> exists|outputs: Seq<V>|
        {
            &&& #[trigger] routines[old[p].edge().routine as int].yields(
                seen_by(old, new, p, id),
                outputs,
            )
            &&& outputs_hold(new, p, outputs)
        }
    &&& !changes(old, p) ==> forall|j: int|
        p < j <= p + old[p].edge().num_outputs ==> (#[trigger] new[j]).cell().current
            == old[j].cell().current
}

/// `new` is what one recompute pass makes of the graph `old`.
pub open spec fn recomputed<V>(
    old: Seq<RxElemView<V>>,
    new: Seq<RxElemView<V>>,
    routines: Seq<RxRoutine<'_, V>>,
    id: RxDAGUid,
) -> bool {
    &&& new.len() == old.len()
    &&& forall|j: int|
        0 <= j < old.len() ==> match #[trigger] old[j] {
            RxElemView::Node(_) => cell_after_pass(old, new, j),
            RxElemView::Edge(_) => edge_after_pass(old, new, routines, id, j),
        }
}

/// What is pending in the cell at `j` when a pass from `old` has dealt with the first `i`
/// elements and the routines it ran produced `outs`, disregarding whether the pass has
/// adopted it already: for a variable, what was pending in `old`; for a computed cell,
/// what the routine of its edge produced for it, if the pass ran it.
pub open spec fn pending_in_pass<V>(
    old: Seq<RxElemView<V>>,
    outs: Seq<Seq<V>>,
    i: int,
    j: int,
) -> Option<V> {
    if is_output(old, j) {
        let p = producer(old, j);
        if p < i && changes(old, p) {
            Some(outs[p][j - p - 1])
        } else {
            None
        }
    } else {
        old[j].cell().next
    }
}

/// The element at `j` when a pass from `old` has dealt with the first `i` elements and
/// the routines it ran produced `outs`.
pub open spec fn state_in_pass<V>(
    old: Seq<RxElemView<V>>,
    outs: Seq<Seq<V>>,
    i: int,
    j: int,
) -> RxElemView<V> {
    match old[j] {
        RxElemView::Edge(edge) => RxElemView::Edge(
            if j < i {
                edge_passed(edge, changes(old, j))
            } else {
                edge
            },
        ),
        RxElemView::Node(rx) => {
            let waiting = RxImpl { next: pending_in_pass(old, outs, i, j), ..rx };
            RxElemView::Node(
                if j < i {
                    waiting.adopted()
                } else {
                    waiting
                },
            )
        },
    }
}

/// What the edge at `p` sees when a pass from `old` reaches it, after the routines the
/// pass ran before produced `outs`.
pub open spec fn seen_in_pass<V>(
    old: Seq<RxElemView<V>>,
    outs: Seq<Seq<V>>,
    p: int,
    id: RxDAGUid,
) -> RxSubDAGView<V> {
    RxSubDAGView {
        before: Seq::new(p as nat, |t: int| state_in_pass(old, outs, p, t)),
        index: p as usize,
        id,
    }
}

/// A pass from `old` has dealt with the first `i` elements and left the graph as `cur`;
/// the routines it ran produced `outs`.
pub open spec fn pass_reached<V>(
    old: Seq<RxElemView<V>>,
    cur: Seq<RxElemView<V>>,
    routines: Seq<RxRoutine<'_, V>>,
    id: RxDAGUid,
    outs: Seq<Seq<V>>,
    i: int,
) -> bool {
    &&& 0 <= i <= old.len()
    &&& cur.len() == old.len()
    &&& outs.len() == i
    &&& forall|j: int| 0 <= j < old.len() ==> #[trigger] cur[j] == state_in_pass(old, outs, i, j)
    &&& forall|p: int|
        0 <= p < i && #[trigger] old[p] is Edge && changes(old, p) ==> {
            &&& outs[p].len() == old[p].edge().num_outputs
            &&& routines[old[p].edge().routine as int].yields(seen_in_pass(old, outs, p, id), outs[p])
        }
}

/// Whether an element changes does not depend on how far one looks.
pub proof fn lemma_changed_upto<V>(g: Seq<RxElemView<V>>, n: nat, j: int)
    requires
        0 <= j < n,
    ensures
        changed_upto(g, n).len() == n,
        changed_upto(g, n)[j] == changes(g, j),
    decreases n,
{
    lemma_changed_upto_len(g, (j + 1) as nat);
    if n > j + 1 {
        lemma_changed_upto(g, (n - 1) as nat, j);
    }
}

/// `changed_upto` says of each of the first `n` elements whether it changes.
pub proof fn lemma_changed_upto_len<V>(g: Seq<RxElemView<V>>, n: nat)
    ensures
        changed_upto(g, n).len() == n,
    decreases n,
{
    if n > 0 {
        lemma_changed_upto_len(g, (n - 1) as nat);
    }
}

/// In a well-shaped graph, a cell is the output of at most one edge.
pub proof fn lemma_producer_unique<V>(g: Seq<RxElemView<V>>, j: int, p: int)
    requires
        well_shaped(g),
        is_output_of(g, j, p),
    ensures
        is_output(g, j),
        producer(g, j) == p,
{
    let q = producer(g, j);
    assert(edge_in_place(g, p));
    assert(edge_in_place(g, q));
}

/// An edge changes in a pass exactly if one of its dependencies does; a computed cell,
/// exactly if its edge does; a variable, exactly if something is pending in it.
pub proof fn lemma_changes<V>(g: Seq<RxElemView<V>>, i: int)
    requires
        well_shaped(g),
        0 <= i < g.len(),
    ensures
        g[i] is Edge ==> changes(g, i) == has_changed_dependency(g, i),
        g[i] is Node && is_output(g, i) ==> changes(g, i) == changes(g, producer(g, i)),
        g[i] is Node && !is_output(g, i) ==> changes(g, i) == (g[i].cell().next is Some),
{
    let earlier = changed_upto(g, i as nat);
    lemma_changed_upto_len(g, i as nat);
    assert(edge_in_place(g, i));
    if g[i] is Edge {
        let offsets = g[i].edge().offsets;
        assert forall|k: int| 0 <= k < offsets.len() implies earlier[dependency(i, #[trigger] offsets[k])]
            == changes(g, dependency(i, offsets[k])) by {
            lemma_changed_upto(g, i as nat, dependency(i, offsets[k]));
        }
    } else if is_output(g, i) {
        let p = producer(g, i);
        lemma_changed_upto(g, i as nat, p);
    }
}

/// What an edge sees when a pass reaches it does not depend on what the routines produce
/// that the pass runs from then on.
pub proof fn lemma_seen_in_pass_stable<V>(
    old: Seq<RxElemView<V>>,
    outs: Seq<Seq<V>>,
    more: Seq<Seq<V>>,
    p: int,
    id: RxDAGUid,
)
    requires
        0 <= p <= outs.len() <= more.len(),
        forall|q: int| 0 <= q < outs.len() ==> #[trigger] more[q] == outs[q],
    ensures
        seen_in_pass(old, more, p, id) == seen_in_pass(old, outs, p, id),
{
    assert(seen_in_pass(old, more, p, id).before =~= seen_in_pass(old, outs, p, id).before);
}

/// When a pass reaches a cell, the cell is not marked as changed; and once the pass has
/// adopted what is pending in the cell, it has dealt with one element more.
pub proof fn lemma_pass_cell<V>(
    old: Seq<RxElemView<V>>,
    cur: Seq<RxElemView<V>>,
    routines: Seq<RxRoutine<'_, V>>,
    id: RxDAGUid,
    outs: Seq<Seq<V>>,
    i: int,
)
    requires
        graph_wf(old, routines, id),
        pass_reached(old, cur, routines, id, outs, i),
        i < old.len(),
        old[i] is Node,
    ensures
        cur[i] is Node,
        !cur[i].cell().did_recompute,
        pass_reached(
            old,
            cur.update(i, RxElemView::Node(cur[i].cell().adopted())),
            routines,
            id,
            outs.push(Seq::empty()),
            i + 1,
        ),
{
    let more = outs.push(Seq::empty());
    assert forall|p: int| 0 <= p < i + 1 && #[trigger] old[p] is Edge && changes(old, p) implies {
        &&& more[p].len() == old[p].edge().num_outputs
        &&& routines[old[p].edge().routine as int].yields(seen_in_pass(old, more, p, id), more[p])
    } by {
        lemma_seen_in_pass_stable(old, outs, more, p, id);
    }
}

/// When a pass reaches an edge, the edge is as it was, its dependencies and outputs are
/// cells, its routine may be run on what is before it, and one of its dependencies is
/// marked as changed exactly if the edge changes in the pass.
pub proof fn lemma_pass_edge_ready<V>(
    old: Seq<RxElemView<V>>,
    cur: Seq<RxElemView<V>>,
    routines: Seq<RxRoutine<'_, V>>,
    id: RxDAGUid,
    outs: Seq<Seq<V>>,
    i: int,
)
    requires
        graph_wf(old, routines, id),
        pass_reached(old, cur, routines, id, outs, i),
        i < old.len() <= usize::MAX,
        old[i] is Edge,
    ensures
        cur[i] == old[i],
        forall|k: int|
            0 <= k < old[i].edge().offsets.len() ==> {
                &&& 1 <= #[trigger] old[i].edge().offsets[k] <= i
                &&& cur[dependency(i, old[i].edge().offsets[k])] is Node
            },
        i + old[i].edge().num_outputs < old.len(),
        forall|t: int| i < t <= i + old[i].edge().num_outputs ==> #[trigger] cur[t] is Node,
        old[i].edge().routine < routines.len(),
        routines[old[i].edge().routine as int].num_outputs() == old[i].edge().num_outputs,
        cur.subrange(0, i) == seen_in_pass(old, outs, i, id).before,
        routines[old[i].edge().routine as int].accepts(seen_in_pass(old, outs, i, id)),
        some_dependency_marked(old[i].edge().offsets, i, change_marks(cur.subrange(0, i)))
            == changes(old, i),
{
    let edge = old[i].edge();
    assert(edge_in_place(old, i));
    lemma_changes(old, i);
    let marks = change_marks(cur.subrange(0, i));
    assert forall|k: int| 0 <= k < edge.offsets.len() implies marks[dependency(
        i,
        #[trigger] edge.offsets[k],
    )] == changes(old, dependency(i, edge.offsets[k])) by {
        let d = dependency(i, edge.offsets[k]);
        lemma_pending_marks_change(old, routines, id, outs, i, d);
    }
}

/// Something is pending in a cell that a pass has yet to adopt, or was when the pass
/// adopted it, exactly if the cell changes in the pass.
pub proof fn lemma_pending_marks_change<V>(
    old: Seq<RxElemView<V>>,
    routines: Seq<RxRoutine<'_, V>>,
    id: RxDAGUid,
    outs: Seq<Seq<V>>,
    i: int,
    d: int,
)
    requires
        graph_wf(old, routines, id),
        0 <= d < i <= old.len(),
        old[d] is Node,
    ensures
        pending_in_pass(old, outs, i, d) is Some == changes(old, d),
{
    lemma_changes(old, d);
}

/// Once a pass has dealt with an edge, rerunning its routine if the edge changes and
/// making what the routine produced pending in the outputs, it has dealt with one element
/// more.
pub proof fn lemma_pass_edge<V>(
    old: Seq<RxElemView<V>>,
    cur: Seq<RxElemView<V>>,
    next: Seq<RxElemView<V>>,
    routines: Seq<RxRoutine<'_, V>>,
    id: RxDAGUid,
    outs: Seq<Seq<V>>,
    i: int,
    outputs: Seq<V>,
)
    requires
        graph_wf(old, routines, id),
        pass_reached(old, cur, routines, id, outs, i),
        i < old.len(),
        old[i] is Edge,
        next.len() == cur.len(),
        next[i] == RxElemView::<V>::Edge(edge_passed(old[i].edge(), changes(old, i))),
        forall|t: int|
            0 <= t < cur.len() && t != i && !(changes(old, i) && i < t <= i
                + old[i].edge().num_outputs) ==> #[trigger] next[t] == cur[t],
        changes(old, i) ==> {
            &&& outputs.len() == old[i].edge().num_outputs
            &&& routines[old[i].edge().routine as int].yields(seen_in_pass(old, outs, i, id), outputs)
            &&& forall|t: int|
                i < t <= i + old[i].edge().num_outputs ==> #[trigger] next[t] == with_pending(
                    cur[t],
                    outputs[t - i - 1],
                )
        },
    ensures
        pass_reached(old, next, routines, id, outs.push(outputs), i + 1),
{
    let more = outs.push(outputs);
    let edge = old[i].edge();
    assert(edge_in_place(old, i));
    assert forall|j: int| 0 <= j < old.len() implies #[trigger] next[j] == state_in_pass(
        old,
        more,
        i + 1,
        j,
    ) by {
        if i < j <= i + edge.num_outputs {
            lemma_producer_unique(old, j, i);
        }
    }
    assert forall|p: int| 0 <= p < i + 1 && #[trigger] old[p] is Edge && changes(old, p) implies {
        &&& more[p].len() == old[p].edge().num_outputs
        &&& routines[old[p].edge().routine as int].yields(seen_in_pass(old, more, p, id), more[p])
    } by {
        lemma_seen_in_pass_stable(old, outs, more, p, id);
    }
}

/// Once a pass has dealt with every element and the marks it left are cleared, the graph
/// is what one recompute pass makes of the graph it started from, and is at rest again.
pub proof fn lemma_pass_ends<V>(
    old: Seq<RxElemView<V>>,
    cur: Seq<RxElemView<V>>,
    new: Seq<RxElemView<V>>,
    routines: Seq<RxRoutine<'_, V>>,
    id: RxDAGUid,
    outs: Seq<Seq<V>>,
)
    requires
        graph_wf(old, routines, id),
        pass_reached(old, cur, routines, id, outs, old.len() as int),
        new.len() == cur.len(),
        forall|j: int| 0 <= j < cur.len() ==> #[trigger] new[j] == cur[j].settled(),
    ensures
        recomputed(old, new, routines, id),
{
    let n = old.len() as int;
    assert forall|j: int| 0 <= j < old.len() implies match #[trigger] old[j] {
        RxElemView::Node(_) => cell_after_pass(old, new, j),
        RxElemView::Edge(_) => edge_after_pass(old, new, routines, id, j),
    } by {
        if old[j] is Edge {
            let edge = old[j].edge();
            assert(edge_in_place(old, j));
            assert forall|t: int| j < t <= j + edge.num_outputs implies is_output(old, t) && producer(
                old,
                t,
            ) == j && old[t] is Node && new[t] == cur[t].settled() && cur[t] == state_in_pass(
                old,
                outs,
                n,
                t,
            ) by {
                lemma_producer_unique(old, t, j);
            }
            if changes(old, j) {
                let seen = seen_in_pass(old, outs, j, id);
                assert forall|t: int| 0 <= t < j implies seen_by(old, new, j, id).before[t]
                    == #[trigger] seen.before[t] by {
                    if old[t] is Node {
                        lemma_pending_marks_change(old, routines, id, outs, j, t);
                    }
                }
                assert(seen_by(old, new, j, id).before =~= seen.before);
            }
        }
    }
}

/// A pass gives a cell a new value only if the cell changes in the pass.
pub proof fn lemma_unchanged_cell_keeps_value<V>(
    old: Seq<RxElemView<V>>,
    new: Seq<RxElemView<V>>,
    routines: Seq<RxRoutine<'_, V>>,
    id: RxDAGUid,
    d: int,
)
    requires
        graph_wf(old, routines, id),
        recomputed(old, new, routines, id),
        0 <= d < old.len(),
        old[d] is Node,
        !changes(old, d),
    ensures
        new[d].cell().current == old[d].cell().current,
{
    lemma_changes(old, d);
}

/// What one recompute pass makes of a graph at rest is a graph at rest: in particular,
/// every computed cell again holds what the routine of its edge may produce from the
/// values that its dependencies hold then.
pub proof fn lemma_pass_keeps_wf<V>(
    old: Seq<RxElemView<V>>,
    new: Seq<RxElemView<V>>,
    routines: Seq<RxRoutine<'_, V>>,
    id: RxDAGUid,
)
    requires
        graph_wf(old, routines, id),
        recomputed(old, new, routines, id),
    ensures
        graph_wf(new, routines, id),
        keeps_cells(old, new),
{
    assert forall|j: int| 0 <= j < old.len() implies is_output(old, j) == is_output(new, j) by {
        if is_output(old, j) {
            let p = producer(old, j);
            assert(is_output_of(new, j, p));
        }
        if is_output(new, j) {
            let p = producer(new, j);
            assert(is_output_of(old, j, p));
        }
    }
    assert forall|i: int| 0 <= i < new.len() implies #[trigger] edge_in_place(new, i) by {
        assert(edge_in_place(old, i));
        if new[i] is Edge {
            let edge = new[i].edge();
            assert forall|j: int| i < j <= i + edge.num_outputs implies #[trigger] new[j] is Node by {
                assert(old[j] is Node <==> new[j] is Node);
            }
        }
    }
    assert forall|j: int| 0 <= j < new.len() && #[trigger] new[j] is Node implies {
        &&& !new[j].cell().did_recompute
        &&& is_output(new, j) ==> new[j].cell().next is None
    } by {
        assert(old[j] is Node <==> new[j] is Node);
    }
    assert forall|i: int| 0 <= i < new.len() && #[trigger] new[i] is Edge implies {
        &&& new[i].edge().routine < routines.len()
        &&& routines[new[i].edge().routine as int].num_outputs() == new[i].edge().num_outputs
        &&& forall|seen: RxSubDAGView<V>|
            seen_from(seen, new, i, id) ==> #[trigger] routines[new[i].edge().routine as int].accepts(
                seen,
            )
    } by {
        assert(old[i] is Node <==> new[i] is Node);
    }
    assert forall|i: int| 0 <= i < new.len() && #[trigger] new[i] is Edge implies edge_consistent(
        new,
        routines,
        id,
        i,
    ) by {
        assert(edge_in_place(old, i));
        if !changes(old, i) {
            let (seen, outputs) = choose|seen: RxSubDAGView<V>, outputs: Seq<V>|
                {
                    &&& seen_from(seen, old, i, id)
                    &&& agrees_on_dependencies(seen.before, old, i)
                    &&& #[trigger] routines[old[i].edge().routine as int].yields(seen, outputs)
                    &&& outputs_hold(old, i, outputs)
                };
            lemma_changes(old, i);
            assert(agrees_on_dependencies(seen.before, new, i)) by {
                assert forall|k: int| 0 <= k < new[i].edge().offsets.len() implies seen.before[dependency(
                    i,
                    #[trigger] new[i].edge().offsets[k],
                )].cell().current == new[dependency(i, new[i].edge().offsets[k])].cell().current by {
                    let d = dependency(i, old[i].edge().offsets[k]);
                    lemma_unchanged_cell_keeps_value(old, new, routines, id, d);
                }
            }
        }
    }
}

} // verus!
