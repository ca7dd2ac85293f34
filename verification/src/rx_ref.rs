//! Handles: what callers hold to address the cells of a graph.
use crate::clone_set_fn::CloneSetFn;
use crate::dag::{with_read, RxContext, RxDAG, RxSubDAG};
use crate::dag_uid::RxDAGUid;
use crate::model::{is_variable, keeps_cells, modified_by, pending_set, RxSubDAGView};
use crate::rx_impl::RxImpl;
use std::marker::PhantomData;
use vstd::prelude::*;

verus! {

/// The position of a cell in a graph, with the identity of that graph.
///
/// It says neither what kind of value the cell holds nor whether the cell is a variable
/// or a computed value, so nothing can be read or written through it. Typed handles wrap
/// it: [`RxRef`], and around that [`Var`] or [`CRx`].
#[derive(Debug, Clone, Copy)]
pub struct UntypedRxRef {
    index: usize,
    graph_id: RxDAGUid,
}

/// The position of a cell that holds a `V`, which may be a variable or a computed value.
#[derive(Debug)]
pub struct RxRef<V>(UntypedRxRef, PhantomData<V>);

/// A handle to a variable: a cell that can be read and set.
#[derive(Debug)]
pub struct Var<V>(RxRef<V>);

/// A handle to a computed value: a cell that can only be read.
#[derive(Debug)]
pub struct CRx<V>(RxRef<V>);

impl UntypedRxRef {
    /// The position of the cell in its graph.
    pub closed spec fn index_spec(self) -> usize {
        self.index
    }

    /// The identity of the graph the cell is in.
    pub closed spec fn graph_id_spec(self) -> RxDAGUid {
        self.graph_id
    }

    /// The position of the cell in its graph.
    #[verifier::when_used_as_spec(index_spec)]
    pub fn index(self) -> (index: usize)
        ensures
            index == self.index_spec(),
    {
        self.index
    }

    /// The identity of the graph the cell is in.
    #[verifier::when_used_as_spec(graph_id_spec)]
    pub fn graph_id(self) -> (id: RxDAGUid)
        ensures
            id == self.graph_id_spec(),
    {
        self.graph_id
    }

    /// This handle names a cell of `graph`: it comes from the graph of that identity, and
    /// at its position `graph` holds a cell.
    pub open spec fn valid_in<V>(self, graph: RxSubDAGView<V>) -> bool {
        &&& self.graph_id() == graph.id
        &&& self.index() < graph.before.len()
        &&& graph.before[self.index() as int] is Node
    }

    /// The current value of the cell that this handle names in `graph`.
    pub open spec fn value_in<V>(self, graph: RxSubDAGView<V>) -> V {
        graph.before[self.index() as int].cell().current
    }

    /// The latest value of the cell that this handle names in `graph`: what is pending in
    /// it if anything is, else its current value.
    pub open spec fn latest_in<V>(self, graph: RxSubDAGView<V>) -> V {
        graph.before[self.index() as int].cell().latest()
    }

    /// This handle names a variable of `graph`.
    pub open spec fn names_variable_of<V>(self, graph: RxSubDAGView<V>) -> bool {
        &&& self.graph_id() == graph.id
        &&& is_variable(graph.before, self.index() as int)
    }

    /// The handle of the element at `index` of `graph`.
    pub(crate) fn new<V>(graph: &RxDAG<'_, V>, index: usize) -> (r: Self)
        ensures
            r.index() == index,
            r.graph_id() == graph.graph_id(),
    {
        UntypedRxRef { index, graph_id: graph.id() }
    }

    /// Whether this handle names a cell of `graph`.
    pub fn is_valid_in<V>(self, graph: RxSubDAG<'_, V>) -> (valid: bool)
        ensures
            valid == self.valid_in(graph@),
    {
        self.graph_id == graph.id && self.index < graph.before.len() && graph.before.get_unchecked(
            self.index,
        ).as_node().is_some()
    }

    /// The cell this handle names.
    pub(crate) fn get_rx<'a, V>(self, graph: RxSubDAG<'a, V>) -> (rx: &'a RxImpl<V>)
        requires
            self.valid_in(graph@),
        ensures
            *rx == graph@.before[self.index() as int].cell(),
    {
        let elem = graph.before.get_unchecked(self.index);
        elem.as_node().unwrap()
    }
}

impl<V> Clone for RxRef<V> {
    fn clone(&self) -> (r: Self)
        ensures
            r == *self,
    {
        RxRef(self.0, PhantomData)
    }
}

impl<V> Copy for RxRef<V> {

}

impl<V> Clone for Var<V> {
    fn clone(&self) -> (r: Self)
        ensures
            r == *self,
    {
        Var(self.0)
    }
}

impl<V> Copy for Var<V> {

}

impl<V> Clone for CRx<V> {
    fn clone(&self) -> (r: Self)
        ensures
            r == *self,
    {
        CRx(self.0)
    }
}

impl<V> Copy for CRx<V> {

}

impl<V> RxRef<V> {
    /// This handle without the kind of value.
    pub closed spec fn untyped(self) -> UntypedRxRef {
        self.0
    }

    /// The handle of the element at `index` of `graph`.
    pub(crate) fn new(graph: &RxDAG<'_, V>, index: usize) -> (r: Self)
        ensures
            r.untyped().index() == index,
            r.untyped().graph_id() == graph.graph_id(),
    {
        RxRef(UntypedRxRef::new(graph, index), PhantomData)
    }

    /// Takes `raw` for the position of a cell that holds a `V`.
    ///
    /// Nothing can be read through the result but from a graph whose cells hold a `V`.
    pub fn from_raw(raw: UntypedRxRef) -> (r: Self)
        ensures
            r.untyped() == raw,
    {
        RxRef(raw, PhantomData)
    }

    /// Forgets the kind of value the cell holds.
    pub fn raw(self) -> (raw: UntypedRxRef)
        ensures
            raw == self.untyped(),
    {
        self.0
    }

    /// Reads the cell: returns its current value, and lets the facade `c` record the read.
    pub fn get<'a, C: RxContext<'a, V>>(self, c: &mut C) -> (value: &'a V)
        requires
            self.untyped().valid_in(old(c).graph()),
        ensures
            *value == self.untyped().value_in(old(c).graph()),
            final(c).graph() == old(c).graph(),
            final(c).read_marks() == with_read(old(c).read_marks(), self.untyped().index()),
    {
        let graph = c.sub_dag();
        c.note_read(self.0.index);
        self.0.get_rx(graph).get()
    }

    /// Buffers `value` as the pending value of the variable.
    pub(crate) fn set(self, g: &mut RxDAG<'_, V>, value: V)
        requires
            old(g).wf(),
            self.untyped().names_variable_of(old(g).whole()),
        ensures
            final(g).wf(),
            keeps_cells(old(g)@, final(g)@),
            final(g)@ == pending_set(old(g)@, self.untyped().index() as int, value),
            final(g).routines() == old(g).routines(),
            final(g).graph_id() == old(g).graph_id(),
    {
        g.set_node(self.0.index, value);
    }

    /// Buffers as the pending value what `modify` makes of the latest value: of the
    /// pending value if there is one, else of the current value.
    pub(crate) fn modify<F: FnOnce(&V) -> V>(self, g: &mut RxDAG<'_, V>, modify: F)
        requires
            old(g).wf(),
            self.untyped().names_variable_of(old(g).whole()),
            modify.requires((&self.untyped().latest_in(old(g).whole()),)),
        ensures
            final(g).wf(),
            keeps_cells(old(g)@, final(g)@),
            modified_by(old(g)@, final(g)@, self.untyped().index() as int, modify),
            final(g).routines() == old(g).routines(),
            final(g).graph_id() == old(g).graph_id(),
    {
        g.modify_node(self.0.index, modify);
    }
}

impl<V> Var<V> {
    /// The handle of the cell, without the knowledge that it is a variable.
    pub closed spec fn raw_spec(self) -> RxRef<V> {
        self.0
    }

    /// This handle names a variable of the graph `g`.
    pub open spec fn is_var_of(self, g: &RxDAG<'_, V>) -> bool {
        self.raw_spec().untyped().names_variable_of(g.whole())
    }

    /// The handle of a variable that the graph has just created.
    pub(crate) fn new(internal: RxRef<V>) -> (var: Self)
        ensures
            var.raw_spec() == internal,
    {
        Var(internal)
    }

    /// Takes `raw` for the handle of a variable.
    ///
    /// Whether it names one is for each graph to say: see [`Var::is_var_of`], which
    /// [`Var::set`] and [`Var::modify`] require, and [`Var::is_valid_in`], which tests it.
    pub fn from_raw(raw: RxRef<V>) -> (var: Self)
        ensures
            var.raw_spec() == raw,
    {
        Var(raw)
    }

    /// Forgets that the cell is a variable.
    #[verifier::when_used_as_spec(raw_spec)]
    pub fn raw(self) -> (raw: RxRef<V>)
        ensures
            raw == self.raw_spec(),
    {
        self.0
    }
}

impl<V> CRx<V> {
    /// The handle of the cell, without the knowledge that it is a computed value.
    pub closed spec fn raw_spec(self) -> RxRef<V> {
        self.0
    }

    /// This handle names the cell at position `index` of the graph of identity `id`.
    pub open spec fn names(self, index: nat, id: RxDAGUid) -> bool {
        &&& self.raw_spec().untyped().index() == index
        &&& self.raw_spec().untyped().graph_id() == id
    }

    /// The handle of a computed value that the graph has just created.
    pub(crate) fn new(internal: RxRef<V>) -> (crx: Self)
        ensures
            crx.raw_spec() == internal,
    {
        CRx(internal)
    }

    /// Takes `raw` for the handle of a computed value. Through the result the cell can
    /// only be read, whatever it is.
    pub fn from_raw(raw: RxRef<V>) -> (crx: Self)
        ensures
            crx.raw_spec() == raw,
    {
        CRx(raw)
    }

    /// Forgets that the cell is a computed value.
    #[verifier::when_used_as_spec(raw_spec)]
    pub fn raw(self) -> (raw: RxRef<V>)
        ensures
            raw == self.raw_spec(),
    {
        self.0
    }
}

impl<V> Var<V> {
    /// Whether this handle names a variable of the graph `g`.
    pub fn is_valid_in(self, g: &RxDAG<'_, V>) -> (valid: bool)
        requires
            g.wf(),
        ensures
            valid == self.is_var_of(g),
    {
        self.0.0.graph_id == g.id() && g.is_variable_at(self.0.0.index)
    }

    /// Reads the variable: returns its current value, and lets the facade `c` record the
    /// read.
    pub fn get<'a, C: RxContext<'a, V>>(self, c: &mut C) -> (value: &'a V)
        requires
            self.raw_spec().untyped().valid_in(old(c).graph()),
        ensures
            *value == self.raw_spec().untyped().value_in(old(c).graph()),
            final(c).graph() == old(c).graph(),
            final(c).read_marks() == with_read(
                old(c).read_marks(),
                self.raw_spec().untyped().index(),
            ),
    {
        self.0.get(c)
    }

    /// Writes a new value to the variable. It replaces what was pending, and becomes the
    /// current value in the next recompute.
    pub fn set(self, g: &mut RxDAG<'_, V>, value: V)
        requires
            old(g).wf(),
            self.is_var_of(old(g)),
        ensures
            final(g).wf(),
            keeps_cells(old(g)@, final(g)@),
            final(g)@ == pending_set(old(g)@, self.raw_spec().untyped().index() as int, value),
            final(g).routines() == old(g).routines(),
            final(g).graph_id() == old(g).graph_id(),
    {
        self.0.set(g, value);
    }

    /// Applies a transformation to the latest value: to what is pending if anything is,
    /// else to the current value. The result becomes pending.
    ///
    /// This is what to use in place of a [`Var::get`] followed by a [`Var::set`], since
    /// what is set does not show in [`Var::get`] until the graph is recomputed.
    pub fn modify<F: FnOnce(&V) -> V>(self, g: &mut RxDAG<'_, V>, modify: F)
        requires
            old(g).wf(),
            self.is_var_of(old(g)),
            modify.requires((&self.raw_spec().untyped().latest_in(old(g).whole()),)),
        ensures
            final(g).wf(),
            keeps_cells(old(g)@, final(g)@),
            modified_by(old(g)@, final(g)@, self.raw_spec().untyped().index() as int, modify),
            final(g).routines() == old(g).routines(),
            final(g).graph_id() == old(g).graph_id(),
    {
        self.0.modify(g, modify)
    }

    /// Creates a view of a part of the variable: `get` picks the part out of the whole,
    /// and `set` makes the whole that has a new part.
    ///
    /// Setting through the view builds on the latest value of the variable, even if the
    /// graph has not been recomputed since that was set. So several views of one variable
    /// can all be set before a recompute, and none undoes what another did.
    pub fn derive<U, GetFn: Fn(&V) -> &U, SetFn: Fn(&V, U) -> V>(self, get: GetFn, set: SetFn) -> (view:
        DVar<V, U, GetFn, SetFn>)
        ensures
            view.source == self.raw_spec(),
            view.get == get,
            view.set == set,
    {
        DVar { source: self.0, get, set, part: PhantomData }
    }

    /// Creates a view of a part of the variable, which clones the whole on set and lets
    /// `set` put the new part into the clone.
    pub fn derive_using_clone<U, GetFn: Fn(&V) -> &U, SetFn: Fn(&mut V, U)>(
        self,
        get: GetFn,
        set: SetFn,
    ) -> (view: DVar<V, U, GetFn, CloneSetFn<V, U, SetFn>>) where V: Clone
        ensures
            view.source == self.raw_spec(),
            view.get == get,
            view.set.inner() == set,
    {
        DVar { source: self.0, get, set: CloneSetFn::new(set), part: PhantomData }
    }
}

impl<V> CRx<V> {
    /// Reads the computed value: returns its current value, and lets the facade `c` record
    /// the read.
    pub fn get<'a, C: RxContext<'a, V>>(self, c: &mut C) -> (value: &'a V)
        requires
            self.raw_spec().untyped().valid_in(old(c).graph()),
        ensures
            *value == self.raw_spec().untyped().value_in(old(c).graph()),
            final(c).graph() == old(c).graph(),
            final(c).read_marks() == with_read(
                old(c).read_marks(),
                self.raw_spec().untyped().index(),
            ),
    {
        self.0.get(c)
    }

    /// Creates a view of a part of the computed value: `get` picks the part out of the
    /// whole.
    pub fn derive<U, GetFn: Fn(&V) -> &U>(self, get: GetFn) -> (view: DCRx<V, U, GetFn>)
        ensures
            view.source == self.raw_spec(),
            view.get == get,
    {
        DCRx { source: self.0, get, part: PhantomData }
    }
}

/// A view of a part of a variable, through which the part can be read and set.
#[verifier::reject_recursive_types(S)]
#[verifier::reject_recursive_types(T)]
pub struct DVar<S, T, GetFn, SetFn> {
    pub source: RxRef<S>,
    pub get: GetFn,
    pub set: SetFn,
    pub part: PhantomData<T>,
}

/// A view of a part of a computed value, through which the part can be read.
#[verifier::reject_recursive_types(S)]
#[verifier::reject_recursive_types(T)]
pub struct DCRx<S, T, GetFn> {
    pub source: RxRef<S>,
    pub get: GetFn,
    pub part: PhantomData<T>,
}

impl<S, T, GetFn: Fn(&S) -> &T, SetFn> DVar<S, T, GetFn, SetFn> {
    /// Reads the part of the variable that this view shows, and lets the facade `c` record
    /// that the variable was read.
    pub fn get<'a, C: RxContext<'a, S>>(&self, c: &mut C) -> (part: &'a T) where S: 'a
        requires
            self.source.untyped().valid_in(old(c).graph()),
            self.get.requires((&self.source.untyped().value_in(old(c).graph()),)),
        ensures
            self.get.ensures((&self.source.untyped().value_in(old(c).graph()),), part),
            final(c).graph() == old(c).graph(),
            final(c).read_marks() == with_read(old(c).read_marks(), self.source.untyped().index()),
    {
        (self.get)(self.source.get(c))
    }
}

impl<S, T, GetFn: Fn(&S) -> &T, SetFn: Fn(&S, T) -> S> DVar<S, T, GetFn, SetFn> {
    /// Writes a new value to the part of the variable that this view shows: what becomes
    /// pending in the variable is what the setter makes of its latest value and `value`.
    pub fn set(&self, g: &mut RxDAG<'_, S>, value: T)
        requires
            old(g).wf(),
            self.source.untyped().names_variable_of(old(g).whole()),
            self.set.requires((&self.source.untyped().latest_in(old(g).whole()), value)),
        ensures
            final(g).wf(),
            keeps_cells(old(g)@, final(g)@),
            final(g)@[self.source.untyped().index() as int].cell().next is Some,
            self.set.ensures(
                (&self.source.untyped().latest_in(old(g).whole()), value),
                self.source.untyped().latest_in(final(g).whole()),
            ),
            final(g)@ == pending_set(
                old(g)@,
                self.source.untyped().index() as int,
                final(g)@[self.source.untyped().index() as int].cell().latest(),
            ),
            final(g).routines() == old(g).routines(),
            final(g).graph_id() == old(g).graph_id(),
    {
        let set = &self.set;
        let with_part = move |old_value: &S| -> (whole: S)
            requires
                set.requires((old_value, value)),
            ensures
                set.ensures((old_value, value), whole),
            { set(old_value, value) };
        self.source.modify(g, with_part)
    }
}

impl<S: Clone, T, GetFn: Fn(&S) -> &T, F: Fn(&mut S, T)> DVar<S, T, GetFn, CloneSetFn<S, T, F>> {
    /// Writes a new value to the part of the variable that this view shows: what becomes
    /// pending in the variable is a clone of its latest value into which the setter has
    /// put `value`.
    pub fn set(&self, g: &mut RxDAG<'_, S>, value: T)
        requires
            old(g).wf(),
            self.source.untyped().names_variable_of(old(g).whole()),
            self.set.callable(self.source.untyped().latest_in(old(g).whole()), value),
        ensures
            final(g).wf(),
            keeps_cells(old(g)@, final(g)@),
            final(g)@[self.source.untyped().index() as int].cell().next is Some,
            exists|copy: &mut S|
                {
                    &&& vstd::pervasive::cloned(self.source.untyped().latest_in(old(g).whole()), *copy)
                    &&& #[trigger] self.set.inner().ensures((copy, value), ())
                    &&& *final(copy) == self.source.untyped().latest_in(final(g).whole())
                },
            final(g)@ == pending_set(
                old(g)@,
                self.source.untyped().index() as int,
                final(g)@[self.source.untyped().index() as int].cell().latest(),
            ),
            final(g).routines() == old(g).routines(),
            final(g).graph_id() == old(g).graph_id(),
    {
        let set = &self.set;
        let with_part = move |old_value: &S| -> (whole: S)
            requires
                set.callable(*old_value, value),
            ensures
                exists|copy: &mut S|
                    {
                        &&& vstd::pervasive::cloned(*old_value, *copy)
                        &&& #[trigger] set.inner().ensures((copy, value), ())
                        &&& *final(copy) == whole
                    },
            { set.call(old_value, value) };
        self.source.modify(g, with_part)
    }
}

impl<S, T, GetFn: Fn(&S) -> &T> DCRx<S, T, GetFn> {
    /// Reads the part of the computed value that this view shows, and lets the facade `c`
    /// record that the computed value was read.
    pub fn get<'a, C: RxContext<'a, S>>(&self, c: &mut C) -> (part: &'a T) where S: 'a
        requires
            self.source.untyped().valid_in(old(c).graph()),
            self.get.requires((&self.source.untyped().value_in(old(c).graph()),)),
        ensures
            self.get.ensures((&self.source.untyped().value_in(old(c).graph()),), part),
            final(c).graph() == old(c).graph(),
            final(c).read_marks() == with_read(old(c).read_marks(), self.source.untyped().index()),
    {
        (self.get)(self.source.get(c))
    }
}

} // verus!
