use mini_rx::clone_set_fn::CloneSetFn;
use mini_rx::dag::{RxContext, RxDAG, RxInput};
use mini_rx::dag_uid::RxDAGUid;
use mini_rx::rx_impl::{CurrentOrNext, RxDAGElem, RxEdgeImpl, RxImpl};
use std::cell::Cell;

fn dag_with_id<'c, V>(id: usize) -> RxDAG<'c, V> {
    let mut counter = id - 1;
    RxDAG::new(&mut counter)
}

#[test]
fn uid_next_counts_up_from_the_counter() {
    let mut counter = 0;
    assert_eq!(RxDAGUid::next(&mut counter), RxDAGUid(1));
    assert_eq!(counter, 1);
    assert_eq!(RxDAGUid::next(&mut counter), RxDAGUid(2));
    assert_eq!(RxDAGUid::next(&mut counter), RxDAGUid(3));
    assert_eq!(counter, 3);
    let mut late = usize::MAX - 1;
    assert_eq!(RxDAGUid::next(&mut late), RxDAGUid(usize::MAX));
}

#[test]
fn graphs_of_one_counter_differ_in_identity() {
    let mut counter = 0;
    let a: RxDAG<'_, i32> = RxDAG::new(&mut counter);
    let b: RxDAG<'_, i32> = RxDAG::new(&mut counter);
    let c: RxDAG<'_, u8> = RxDAG::new(&mut counter);
    assert_eq!(a.id(), RxDAGUid(1));
    assert_eq!(b.id(), RxDAGUid(2));
    assert_eq!(c.id(), RxDAGUid(3));
    assert_eq!(counter, 3);
    assert!(a.id() != b.id());
}

#[test]
fn new_graph_is_empty_and_keeps_its_identity() {
    let g = dag_with_id::<i32>(7);
    assert_eq!(g.next_index(), 0);
    assert_eq!(g.id(), RxDAGUid(7));
    let sub = g.stale().sub_dag();
    assert_eq!(sub.index, 0);
    assert_eq!(sub.before.len(), 0);
    assert_eq!(sub.id, RxDAGUid(7));
}

#[test]
fn set_does_not_show_before_recompute() {
    let mut g = dag_with_id::<i32>(1);
    let v = g.new_var(10);
    let w = g.new_var(20);
    let c = g.new_crx(move |g: &mut RxInput<'_, i32>| *v.get(g) + *w.get(g));
    v.set(&mut g, 11);
    assert_eq!(v.get(&mut g.stale()), &10);
    assert_eq!(w.get(&mut g.stale()), &20);
    assert_eq!(c.get(&mut g.stale()), &30);
    v.set(&mut g, 12);
    assert_eq!(v.get(&mut g.stale()), &10);
    assert_eq!(c.get(&mut g.stale()), &30);
}

#[test]
fn set_shows_after_recompute() {
    let mut g = dag_with_id::<i32>(1);
    let v = g.new_var(10);
    v.set(&mut g, 11);
    g.recompute();
    assert_eq!(v.get(&mut g.stale()), &11);
    assert_eq!(v.get(&mut g.now()), &11);
}

#[test]
fn last_write_wins() {
    let mut g = dag_with_id::<i32>(1);
    let v = g.new_var(1);
    v.set(&mut g, 2);
    v.set(&mut g, 3);
    g.recompute();
    assert_eq!(v.get(&mut g.stale()), &3);
    g.recompute();
    assert_eq!(v.get(&mut g.stale()), &3);
}

#[test]
fn computed_values_follow_their_dependencies_through_a_chain() {
    let mut g = dag_with_id::<i64>(1);
    let a = g.new_var(1);
    let b = g.new_var(2);
    let sum = g.new_crx(move |g: &mut RxInput<'_, i64>| *a.get(g) + *b.get(g));
    let double = g.new_crx(move |g: &mut RxInput<'_, i64>| *sum.get(g) * 2);
    let mixed = g.new_crx(move |g: &mut RxInput<'_, i64>| *double.get(g) - *a.get(g));
    assert_eq!(*sum.get(&mut g.stale()), 3);
    assert_eq!(*double.get(&mut g.stale()), 6);
    assert_eq!(*mixed.get(&mut g.stale()), 5);
    for (x, y) in [(5i64, 7i64), (0, 0), (-3, 10), (100, -100)] {
        a.set(&mut g, x);
        b.set(&mut g, y);
        g.recompute();
        assert_eq!(*sum.get(&mut g.stale()), x + y);
        assert_eq!(*double.get(&mut g.stale()), (x + y) * 2);
        assert_eq!(*mixed.get(&mut g.stale()), (x + y) * 2 - x);
    }
    b.set(&mut g, 1);
    g.recompute();
    assert_eq!(*sum.get(&mut g.stale()), 101);
    assert_eq!(*mixed.get(&mut g.stale()), 102);
}

#[test]
fn effect_runs_once_per_recompute_with_a_changed_dependency() {
    let runs = Cell::new(0);
    let runs_ref = &runs;
    let mut g = dag_with_id::<i32>(1);
    let a = g.new_var(1);
    let b = g.new_var(2);
    let c = g.new_crx(move |g: &mut RxInput<'_, i32>| *a.get(g) * 10);
    g.run_crx(move |g: &mut RxInput<'_, i32>| {
        let _ = c.get(g);
        runs_ref.set(runs_ref.get() + 1);
    });
    assert_eq!(runs.get(), 1);

    // nothing changed
    g.recompute();
    assert_eq!(runs.get(), 1);

    // a cell it does not read changed
    b.set(&mut g, 3);
    g.recompute();
    assert_eq!(runs.get(), 1);

    // the variable behind the computed value it reads changed
    a.set(&mut g, 2);
    g.recompute();
    assert_eq!(runs.get(), 2);
    g.recompute();
    assert_eq!(runs.get(), 2);

    // two writes before one recompute are one change
    a.set(&mut g, 3);
    a.set(&mut g, 4);
    g.recompute();
    assert_eq!(runs.get(), 3);

    // a value that is set counts as a change, even if it is the value that was there
    a.set(&mut g, 4);
    g.recompute();
    assert_eq!(runs.get(), 4);
    assert_eq!(c.get(&mut g.stale()), &40);
}

#[test]
fn effect_counter_sums_the_computed_value() {
    let counter = Cell::new(1);
    let counter_ref = &counter;
    let mut g = dag_with_id::<i32>(1);
    let x = g.new_var(1);
    let y = g.new_crx(move |g: &mut RxInput<'_, i32>| *x.get(g) * 2);
    g.run_crx(move |g: &mut RxInput<'_, i32>| {
        counter_ref.set(counter_ref.get() + *y.get(g));
    });
    assert_eq!(counter.get(), 3);
    x.set(&mut g, 2);
    g.recompute();
    assert_eq!(y.get(&mut g.stale()), &4);
    assert_eq!(counter.get(), 7);
    x.set(&mut g, 4);
    g.recompute();
    assert_eq!(y.get(&mut g.stale()), &8);
    assert_eq!(counter.get(), 15);
}

#[test]
fn modify_twice_is_one_set_of_the_composition() {
    let f = |x: &i32| x * 3;
    let h = |x: &i32| x - 4;

    let mut g1 = dag_with_id::<i32>(1);
    let v1 = g1.new_var(5);
    v1.modify(&mut g1, f);
    v1.modify(&mut g1, h);

    let mut g2 = dag_with_id::<i32>(2);
    let v2 = g2.new_var(5);
    v2.set(&mut g2, h(&f(&5)));

    assert_eq!(v1.get(&mut g1.stale()), &5);
    assert_eq!(v2.get(&mut g2.stale()), &5);
    assert_eq!(v1.get(&mut g1.now()), &11);
    assert_eq!(v2.get(&mut g2.now()), &11);
}

#[test]
fn modify_builds_on_what_is_pending() {
    let mut g = dag_with_id::<i32>(1);
    let v = g.new_var(1);
    v.set(&mut g, 100);
    v.modify(&mut g, |x| x + 1);
    assert_eq!(v.get(&mut g.now()), &101);
    v.modify(&mut g, |x| x * 2);
    assert_eq!(v.get(&mut g.stale()), &101);
    assert_eq!(v.get(&mut g.now()), &202);
}

#[test]
fn derived_view_shows_what_was_set_through_it() {
    let mut g = dag_with_id::<(i32, String)>(1);
    let v = g.new_var((1, "one".to_string()));
    let first = v.derive(
        |whole: &(i32, String)| &whole.0,
        |whole: &(i32, String), part: i32| (part, whole.1.clone()),
    );
    let second = v.derive(
        |whole: &(i32, String)| &whole.1,
        |whole: &(i32, String), part: String| (whole.0, part),
    );
    assert_eq!(first.get(&mut g.stale()), &1);
    assert_eq!(second.get(&mut g.stale()), "one");

    first.set(&mut g, 2);
    assert_eq!(first.get(&mut g.stale()), &1);
    assert_eq!(first.get(&mut g.now()), &2);
    assert_eq!(v.get(&mut g.stale()), &(2, "one".to_string()));

    // both views set before one recompute: neither undoes the other
    first.set(&mut g, 3);
    second.set(&mut g, "three".to_string());
    assert_eq!(first.get(&mut g.now()), &3);
    assert_eq!(second.get(&mut g.stale()), "three");
    assert_eq!(v.get(&mut g.stale()), &(3, "three".to_string()));
}

#[test]
fn derived_view_of_a_computed_value_reads_its_part() {
    let mut g = dag_with_id::<(i32, i32)>(1);
    let v = g.new_var((1, 2));
    let swapped = g.new_crx(move |g: &mut RxInput<'_, (i32, i32)>| {
        let whole = v.get(g);
        (whole.1, whole.0)
    });
    let first = swapped.derive(|whole: &(i32, i32)| &whole.0);
    assert_eq!(first.get(&mut g.stale()), &2);
    v.set(&mut g, (5, 6));
    assert_eq!(first.get(&mut g.stale()), &2);
    assert_eq!(first.get(&mut g.now()), &6);
}

#[test]
fn two_outputs_split_a_string() {
    let mut g = dag_with_id::<String>(1);
    let x = g.new_var("hello world".to_string());
    let (head, tail) = g.new_crx2(move |g: &mut RxInput<'_, String>| {
        let (head, tail) = x.get(g).split_at(3);
        (head.to_string(), tail.to_string())
    });
    assert_eq!(head.get(&mut g.stale()), "hel");
    assert_eq!(tail.get(&mut g.stale()), "lo world");
    x.set(&mut g, "rustlang".to_string());
    g.recompute();
    assert_eq!(head.get(&mut g.stale()), "rus");
    assert_eq!(tail.get(&mut g.stale()), "tlang");
}

#[test]
fn four_and_five_outputs_come_from_one_run() {
    let runs = Cell::new(0);
    let runs_ref = &runs;
    let mut g = dag_with_id::<u32>(1);
    let x = g.new_var(1);
    let (a, b, c, d) = g.new_crx4(move |g: &mut RxInput<'_, u32>| {
        runs_ref.set(runs_ref.get() + 1);
        let x = *x.get(g);
        (x, x + 1, x + 2, x + 3)
    });
    let (p, q, r, s, t) = g.new_crx5(move |g: &mut RxInput<'_, u32>| {
        let d = *d.get(g);
        (d * 1, d * 2, d * 3, d * 4, d * 5)
    });
    assert_eq!(runs.get(), 1);
    assert_eq!(
        [a, b, c, d].map(|h| *h.get(&mut g.stale())),
        [1, 2, 3, 4]
    );
    assert_eq!(
        [p, q, r, s, t].map(|h| *h.get(&mut g.stale())),
        [4, 8, 12, 16, 20]
    );
    x.set(&mut g, 10);
    g.recompute();
    assert_eq!(runs.get(), 2);
    assert_eq!(
        [a, b, c, d].map(|h| *h.get(&mut g.stale())),
        [10, 11, 12, 13]
    );
    assert_eq!(
        [p, q, r, s, t].map(|h| *h.get(&mut g.stale())),
        [13, 26, 39, 52, 65]
    );
    assert_eq!(g.next_index(), 12);
}

#[test]
fn dependencies_are_those_of_the_first_run() {
    let mut g = dag_with_id::<i32>(1);
    let switch = g.new_var(0);
    let other = g.new_var(7);
    // reads `other` only while `switch` is not 0: not in the first run
    let c = g.new_crx(move |g: &mut RxInput<'_, i32>| {
        if *switch.get(g) == 0 {
            -1
        } else {
            *other.get(g)
        }
    });
    assert_eq!(c.get(&mut g.stale()), &-1);
    switch.set(&mut g, 1);
    g.recompute();
    assert_eq!(c.get(&mut g.stale()), &7);
    // `other` was not read in the first run, so its change does not rerun the routine
    other.set(&mut g, 8);
    g.recompute();
    assert_eq!(c.get(&mut g.stale()), &7);
    // a change of `switch` does
    switch.set(&mut g, 2);
    g.recompute();
    assert_eq!(c.get(&mut g.stale()), &8);
}

#[test]
fn reading_a_snapshot_makes_no_dependency() {
    let runs = Cell::new(0);
    let runs_ref = &runs;
    let mut g = dag_with_id::<i32>(1);
    let a = g.new_var(1);
    let b = g.new_var(2);
    assert_eq!(b.get(&mut g.stale()), &2);
    assert_eq!(b.get(&mut g.now()), &2);
    g.run_crx(move |g: &mut RxInput<'_, i32>| {
        let _ = a.get(g);
        runs_ref.set(runs_ref.get() + 1);
    });
    assert_eq!(runs.get(), 1);
    b.set(&mut g, 3);
    g.recompute();
    assert_eq!(runs.get(), 1);
    a.set(&mut g, 3);
    g.recompute();
    assert_eq!(runs.get(), 2);
}

#[test]
fn handles_are_checked_against_the_graph() {
    let mut g = dag_with_id::<i32>(1);
    let mut same_id = dag_with_id::<i32>(1);
    let mut other = dag_with_id::<i32>(2);
    let v = g.new_var(1);
    let c = g.new_crx(move |g: &mut RxInput<'_, i32>| *v.get(g));
    let _ = other.new_var(1);
    let _ = other.new_var(1);
    let _ = other.new_var(1);
    let w = same_id.new_var(5);

    assert!(v.is_valid_in(&g));
    assert!(v.raw().raw().is_valid_in(g.stale().sub_dag()));
    assert!(c.raw().raw().is_valid_in(g.stale().sub_dag()));
    // from a graph of another identity
    assert!(!v.is_valid_in(&other));
    assert!(!c.raw().raw().is_valid_in(other.stale().sub_dag()));
    // not there yet: position 2 of a graph that has one element
    assert!(!c.raw().raw().is_valid_in(same_id.stale().sub_dag()));
    assert!(w.is_valid_in(&same_id));
    // position 0 of `g` is a variable, position 1 an edge, position 2 a computed value
    assert!(g.is_variable_at(0));
    assert!(!g.is_variable_at(1));
    assert!(!g.is_variable_at(2));
    assert!(!g.is_variable_at(3));
    let late = g.new_var(9);
    assert!(g.is_variable_at(3));
    assert!(late.is_valid_in(&g));
    // a handle to position 0 of the same identity names the edge of a graph that starts
    // with one
    let mut edge_first = dag_with_id::<i32>(1);
    edge_first.run_crx(|_: &mut RxInput<'_, i32>| {});
    assert!(!w.is_valid_in(&edge_first));
    assert!(!w.raw().raw().is_valid_in(edge_first.stale().sub_dag()));
}

#[test]
fn input_records_reads_and_forgets_them_when_asked() {
    let mut g = dag_with_id::<i32>(1);
    let a = g.new_var(1);
    let b = g.new_var(2);
    let c = g.new_crx(move |g: &mut RxInput<'_, i32>| *a.get(g));
    let d = g.new_var(4);

    let mut input = RxInput::recording(g.stale().sub_dag());
    assert_eq!(input.did_read, vec![false; 5]);
    assert_eq!(input.post_read(), Vec::<usize>::new());
    assert_eq!(d.get(&mut input), &4);
    assert_eq!(a.get(&mut input), &1);
    assert_eq!(c.get(&mut input), &1);
    assert_eq!(a.get(&mut input), &1);
    assert_eq!(input.did_read, vec![true, false, false, true, true]);
    assert_eq!(input.post_read(), vec![0, 3, 4]);
    assert_eq!(input.did_read, vec![false; 5]);
    assert_eq!(input.post_read(), Vec::<usize>::new());
    assert_eq!(b.get(&mut input), &2);
    // a mark on an edge is not a read of a cell
    input.note_read(2);
    assert_eq!(input.post_read(), vec![1]);

    let mut passing = RxInput::passing(g.stale().sub_dag());
    assert_eq!(b.get(&mut passing), &2);
    assert_eq!(passing.did_read, Vec::<bool>::new());
    assert_eq!(passing.post_read(), Vec::<usize>::new());
}

#[test]
fn edges_hold_backward_offsets_of_what_was_read() {
    let mut g = dag_with_id::<i32>(1);
    let a = g.new_var(1);
    let _b = g.new_var(2);
    let c = g.new_var(3);
    let _sum = g.new_crx(move |g: &mut RxInput<'_, i32>| *c.get(g) + *a.get(g) + *c.get(g));
    let sub = g.stale().sub_dag();
    match sub.before.get_unchecked(3) {
        RxDAGElem::Edge(edge) => {
            assert_eq!(edge.input_backwards_offsets, vec![3, 1]);
            assert_eq!(edge.num_outputs, 1);
            assert_eq!(edge.routine, 0);
            assert_eq!(edge.cached_inputs, Vec::<usize>::new());
            assert_eq!(edge.output_forwards_offsets(), 0..1);
        }
        RxDAGElem::Node(_) => panic!("an edge comes before its output"),
    }
    match sub.before.get_unchecked(4) {
        RxDAGElem::Node(rx) => assert_eq!(rx.get(), &7),
        RxDAGElem::Edge(_) => panic!("the output comes right after its edge"),
    }
    assert!(sub.before.get_unchecked(4).as_node().is_some());
    assert!(sub.before.get_unchecked(3).as_node().is_none());
}

#[test]
fn cell_adopts_what_is_pending() {
    let mut rx = RxImpl::new(1);
    assert_eq!(rx.get(), &1);
    assert!(!rx.did_recompute());
    rx.recompute();
    assert_eq!(rx.get(), &1);
    assert!(!rx.did_recompute());

    rx.set(2);
    rx.set(3);
    assert_eq!(rx.get(), &1);
    rx.recompute();
    assert_eq!(rx.get(), &3);
    assert!(rx.did_recompute());
    assert_eq!(rx.next, None);
    rx.post_recompute();
    assert!(!rx.did_recompute());
    assert_eq!(rx.get(), &3);
}

#[test]
fn take_latest_prefers_what_is_pending() {
    let mut rx = RxImpl::new(1);
    match rx.take_latest() {
        CurrentOrNext::Current(x) => assert_eq!(x, &1),
        CurrentOrNext::Next(_) => panic!("nothing is pending"),
    }
    rx.set(2);
    let latest = rx.take_latest();
    assert_eq!(latest.as_ref(), &2);
    assert!(matches!(latest, CurrentOrNext::Next(2)));
    assert_eq!(rx.next, None);
    assert_eq!(rx.take_latest().as_ref(), &1);
}

#[test]
fn new_edge_has_run_once_and_an_empty_scratch_buffer() {
    let edge = RxEdgeImpl::new(vec![2, 1], 3, 5);
    assert_eq!(edge.input_backwards_offsets, vec![2, 1]);
    assert_eq!(edge.num_outputs, 3);
    assert_eq!(edge.routine, 5);
    assert!(edge.cached_inputs.is_empty());
    assert_eq!(edge.output_forwards_offsets(), 0..3);
}

#[test]
fn clone_set_fn_leaves_the_whole_it_was_given_alone() {
    let set = CloneSetFn::new(|whole: &mut Vec<i32>, part: i32| whole[1] = part);
    let given = vec![1, 2, 3];
    let made = set.call(&given, 20);
    assert_eq!(given, vec![1, 2, 3]);
    assert_eq!(made, vec![1, 20, 3]);
}

#[test]
fn recompute_of_an_empty_graph_does_nothing() {
    let mut g = dag_with_id::<i32>(1);
    g.recompute();
    assert_eq!(g.next_index(), 0);
    let v = g.new_var(1);
    g.recompute();
    assert_eq!(v.get(&mut g.now()), &1);
    assert_eq!(g.next_index(), 1);
}
