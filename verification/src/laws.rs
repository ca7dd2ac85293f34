//! What holds of the graph across several operations.
//!
//! Each law is stated over the views that the contracts of the operations speak of: a
//! graph `g0` before the operations, and the graphs `g1`, `g2`, ... that the contracts
//! say the operations make of it, one after the other.
use crate::dag::RxInput;
use crate::dag_uid::RxDAGUid;
use crate::model::{
    agrees_on_dependencies, all_of, changes, edge_in_place, graph_wf, has_changed_dependency,
    is_output_of, is_variable, lemma_changes, lemma_pass_keeps_wf, lemma_producer_unique,
    lemma_same_outputs, modified_by, outputs_hold, pending_set, recomputed, same_but_pending,
    seen_from, RxSubDAGView,
};
use crate::rx_compute::{may_return, stands_for, Compute1, RxRoutine};
use crate::rx_impl::RxElemView;
use crate::rx_ref::{CRx, Var};
use vstd::prelude::*;

verus! {

/// Setting a variable does not show before the next recompute: a value set in a variable
/// leaves the current value of every cell as it was, that of the variable too.
pub proof fn law_staleness_isolation<V>(
    g0: Seq<RxElemView<V>>,
    g1: Seq<RxElemView<V>>,
    id: RxDAGUid,
    v: Var<V>,
    x: V,
)
    requires
        v.raw_spec().untyped().names_variable_of(all_of(g0, id)),
        g1 == pending_set(g0, v.raw_spec().untyped().index() as int, x),
    ensures
        v.raw_spec().untyped().value_in(all_of(g1, id)) == v.raw_spec().untyped().value_in(
            all_of(g0, id),
        ),
        forall|j: int|
            0 <= j < g0.len() && #[trigger] g0[j] is Node ==> g1[j].cell().current
                == g0[j].cell().current,
{
}

/// A value set in a variable is the current value of the variable after the next
/// recompute.
pub proof fn law_apply_on_recompute<V>(
    g0: Seq<RxElemView<V>>,
    g1: Seq<RxElemView<V>>,
    g2: Seq<RxElemView<V>>,
    routines: Seq<RxRoutine<'_, V>>,
    id: RxDAGUid,
    v: Var<V>,
    x: V,
)
    requires
        v.raw_spec().untyped().names_variable_of(all_of(g0, id)),
        g1 == pending_set(g0, v.raw_spec().untyped().index() as int, x),
        recomputed(g1, g2, routines, id),
    ensures
        v.raw_spec().untyped().value_in(all_of(g2, id)) == x,
{
    let j = v.raw_spec().untyped().index() as int;
    assert(same_but_pending(g0, g1));
    lemma_same_outputs(g0, g1, j);
}

/// Of two values set in a variable one after the other, the one set last is the current
/// value of the variable after the next recompute.
pub proof fn law_last_write_wins<V>(
    g0: Seq<RxElemView<V>>,
    g1: Seq<RxElemView<V>>,
    g2: Seq<RxElemView<V>>,
    g3: Seq<RxElemView<V>>,
    routines: Seq<RxRoutine<'_, V>>,
    id: RxDAGUid,
    v: Var<V>,
    x: V,
    y: V,
)
    requires
        v.raw_spec().untyped().names_variable_of(all_of(g0, id)),
        g1 == pending_set(g0, v.raw_spec().untyped().index() as int, x),
        g2 == pending_set(g1, v.raw_spec().untyped().index() as int, y),
        recomputed(g2, g3, routines, id),
    ensures
        v.raw_spec().untyped().value_in(all_of(g3, id)) == y,
        g2 == pending_set(g0, v.raw_spec().untyped().index() as int, y),
{
    let j = v.raw_spec().untyped().index() as int;
    assert(same_but_pending(g0, g2));
    lemma_same_outputs(g0, g2, j);
}

/// A recompute leaves the graph consistent: afterwards, the outputs of every edge hold
/// what the routine of the edge may produce when every cell that the edge was found to
/// read has the value that the cell has then.
pub proof fn law_consistency<V>(
    g0: Seq<RxElemView<V>>,
    g1: Seq<RxElemView<V>>,
    routines: Seq<RxRoutine<'_, V>>,
    id: RxDAGUid,
    e: int,
)
    requires
        graph_wf(g0, routines, id),
        recomputed(g0, g1, routines, id),
        0 <= e < g0.len(),
        g0[e] is Edge,
    ensures
        graph_wf(g1, routines, id),
        g1[e] is Edge,
        exists|seen: RxSubDAGView<V>, outputs: Seq<V>|
            {
                &&& seen_from(seen, g1, e, id)
                &&& agrees_on_dependencies(seen.before, g1, e)
                &&& #[trigger] routines[g1[e].edge().routine as int].yields(seen, outputs)
                &&& outputs_hold(g1, e, outputs)
            },
{
    lemma_pass_keeps_wf(g0, g1, routines, id);
}

/// After a recompute, a computed value that was created from the function `f` holds what
/// `f` may return when every cell that `f` was found to read has the value that the cell
/// has then.
///
/// `e` is the position of the edge of the computed value `c`, which is the cell right
/// after it.
pub proof fn law_computed_value_consistency<V, F: Fn(&mut RxInput<'_, V>) -> V>(
    g0: Seq<RxElemView<V>>,
    g1: Seq<RxElemView<V>>,
    routines: Seq<RxRoutine<'_, V>>,
    id: RxDAGUid,
    c: CRx<V>,
    e: int,
    f: F,
)
    requires
        graph_wf(g0, routines, id),
        recomputed(g0, g1, routines, id),
        0 <= e < g0.len(),
        g0[e] is Edge,
        c.names((e + 1) as nat, id),
        stands_for(routines[g0[e].edge().routine as int], Compute1(f)),
    ensures
        exists|seen: RxSubDAGView<V>|
            {
                &&& seen_from(seen, g1, e, id)
                &&& agrees_on_dependencies(seen.before, g1, e)
                &&& #[trigger] may_return(f, seen, c.raw_spec().untyped().value_in(all_of(g1, id)))
            },
{
    law_consistency(g0, g1, routines, id, e);
    let (seen, outputs) = choose|seen: RxSubDAGView<V>, outputs: Seq<V>|
        {
            &&& seen_from(seen, g1, e, id)
            &&& agrees_on_dependencies(seen.before, g1, e)
            &&& #[trigger] routines[g1[e].edge().routine as int].yields(seen, outputs)
            &&& outputs_hold(g1, e, outputs)
        };
    assert(may_return(f, seen, c.raw_spec().untyped().value_in(all_of(g1, id))));
}

/// In a recompute, the routine of an edge runs exactly once if one of the cells that the
/// edge was found to read changes in that recompute, and not at all otherwise. A
/// variable changes if a value was set in it since the last recompute; a computed value
/// changes if the routine of its edge runs.
pub proof fn law_effect_gating<V>(
    g0: Seq<RxElemView<V>>,
    g1: Seq<RxElemView<V>>,
    routines: Seq<RxRoutine<'_, V>>,
    id: RxDAGUid,
    e: int,
)
    requires
        graph_wf(g0, routines, id),
        recomputed(g0, g1, routines, id),
        0 <= e < g0.len(),
        g0[e] is Edge,
    ensures
        g1[e] is Edge,
        has_changed_dependency(g0, e) ==> g1[e].edge().runs == g0[e].edge().runs + 1,
        !has_changed_dependency(g0, e) ==> g1[e].edge().runs == g0[e].edge().runs,
        forall|d: int|
            is_variable(g0, d) ==> (#[trigger] changes(g0, d) <==> g0[d].cell().next is Some),
        forall|d: int, p: int| #[trigger]
            is_output_of(g0, d, p) ==> (changes(g0, d) <==> has_changed_dependency(g0, p)),
{
    lemma_changes(g0, e);
    assert forall|d: int| is_variable(g0, d) implies (#[trigger] changes(g0, d)
        <==> g0[d].cell().next is Some) by {
        lemma_changes(g0, d);
    }
    assert forall|d: int, p: int| #[trigger] is_output_of(g0, d, p) implies (changes(g0, d)
        <==> has_changed_dependency(g0, p)) by {
        lemma_producer_unique(g0, d, p);
        assert(edge_in_place(g0, p));
        lemma_changes(g0, d);
        lemma_changes(g0, p);
    }
}

/// Two transformations of a variable, one after the other and with no recompute between
/// them, come to the same as setting in the variable what the second makes of what the
/// first makes of the latest value that the variable had.
pub proof fn law_modify_composition<V, F: FnOnce(&V) -> V, G: FnOnce(&V) -> V>(
    g0: Seq<RxElemView<V>>,
    g1: Seq<RxElemView<V>>,
    g2: Seq<RxElemView<V>>,
    id: RxDAGUid,
    v: Var<V>,
    f: F,
    g: G,
)
    requires
        v.raw_spec().untyped().names_variable_of(all_of(g0, id)),
        modified_by(g0, g1, v.raw_spec().untyped().index() as int, f),
        modified_by(g1, g2, v.raw_spec().untyped().index() as int, g),
    ensures
        exists|x: V, y: V|
            {
                &&& #[trigger] f.ensures((&v.raw_spec().untyped().latest_in(all_of(g0, id)),), x)
                &&& #[trigger] g.ensures((&x,), y)
                &&& g2 == pending_set(g0, v.raw_spec().untyped().index() as int, y)
            },
{
    let j = v.raw_spec().untyped().index() as int;
    let x = g1[j].cell().latest();
    assert(f.ensures((&v.raw_spec().untyped().latest_in(all_of(g0, id)),), x));
}

/// The getter `get` and the setter `set` are a lens: of the whole that `set` makes with
/// a part, `get` shows that part.
pub open spec fn is_lens<S, T, GetFn: Fn(&S) -> &T, SetFn: Fn(&S, T) -> S>(
    get: GetFn,
    set: SetFn,
) -> bool {
    forall|whole: S, part: T, made: S, shown: &T| #[trigger]
        set.ensures((&whole, part), made) && #[trigger] get.ensures((&made,), shown) ==> *shown
            == part
}

/// A part that is set through a view of a variable is, after the next recompute, the part
/// that the view shows, and the part that the getter shows of the variable itself, if the
/// getter and the setter of the view are a lens.
///
/// `made` is the whole that the setter made, which `set` left pending in the variable;
/// `shown` is what the getter shows of the current value after the recompute.
pub proof fn law_derived_roundtrip<S, T, GetFn: Fn(&S) -> &T, SetFn: Fn(&S, T) -> S>(
    g0: Seq<RxElemView<S>>,
    g1: Seq<RxElemView<S>>,
    g2: Seq<RxElemView<S>>,
    routines: Seq<RxRoutine<'_, S>>,
    id: RxDAGUid,
    v: Var<S>,
    get: GetFn,
    set: SetFn,
    x: T,
    made: S,
    shown: &T,
)
    requires
        is_lens(get, set),
        v.raw_spec().untyped().names_variable_of(all_of(g0, id)),
        set.ensures((&v.raw_spec().untyped().latest_in(all_of(g0, id)), x), made),
        g1 == pending_set(g0, v.raw_spec().untyped().index() as int, made),
        recomputed(g1, g2, routines, id),
        get.ensures((&v.raw_spec().untyped().value_in(all_of(g2, id)),), shown),
    ensures
        *shown == x,
{
    law_apply_on_recompute(g0, g1, g2, routines, id, v, made);
}

/// A part that is set through a view of a variable that clones the whole on set is, after
/// the next recompute, the part that the getter shows of the variable, if the getter
/// shows of every whole into which the setter has put a part that part.
///
/// `made` is the clone into which the setter has put `x`, which `set` left pending in
/// the variable; `shown` is what the getter shows of the current value after the
/// recompute.
pub proof fn law_derived_roundtrip_using_clone<
    S: Clone,
    T,
    GetFn: Fn(&S) -> &T,
    SetFn: Fn(&mut S, T),
>(
    g0: Seq<RxElemView<S>>,
    g1: Seq<RxElemView<S>>,
    g2: Seq<RxElemView<S>>,
    routines: Seq<RxRoutine<'_, S>>,
    id: RxDAGUid,
    v: Var<S>,
    get: GetFn,
    set: SetFn,
    x: T,
    made: S,
    shown: &T,
)
    requires
        forall|copy: &mut S, part: T, seen: &T| #[trigger]
            set.ensures((copy, part), ()) && #[trigger] get.ensures((&*final(copy),), seen)
                ==> *seen == part,
        v.raw_spec().untyped().names_variable_of(all_of(g0, id)),
        exists|copy: &mut S|
            {
                &&& vstd::pervasive::cloned(
                    v.raw_spec().untyped().latest_in(all_of(g0, id)),
                    *copy,
                )
                &&& #[trigger] set.ensures((copy, x), ())
                &&& *final(copy) == made
            },
        g1 == pending_set(g0, v.raw_spec().untyped().index() as int, made),
        recomputed(g1, g2, routines, id),
        get.ensures((&v.raw_spec().untyped().value_in(all_of(g2, id)),), shown),
    ensures
        *shown == x,
{
    law_apply_on_recompute(g0, g1, g2, routines, id, v, made);
}

} // verus!
