//! Compute routines: what an edge runs to produce the values of its outputs.
//!
//! A graph keeps routines of any number of outputs in one table. Each kind of routine is
//! a caller's function behind an adapter that hands over its results as a list of values,
//! one for each output.
use crate::dag::RxInput;
use crate::model::RxSubDAGView;
use vstd::prelude::*;

verus! {

/// A compute routine of an edge.
pub trait RxCompute<V> {
    /// How many values the routine produces: one for each output of its edge.
    spec fn num_outputs(&self) -> nat;

    /// The routine may be run on an input over `graph`.
    spec fn accepts(&self, graph: RxSubDAGView<V>) -> bool;

    /// Run on an input over `graph`, the routine may produce `outputs`.
    spec fn yields(&self, graph: RxSubDAGView<V>, outputs: Seq<V>) -> bool;

    /// Runs the routine, reading cells through `input`.
    fn compute(&self, input: &mut RxInput<'_, V>) -> (outputs: Vec<V>)
        requires
            self.accepts(old(input).sub@),
        ensures
            outputs@.len() == self.num_outputs(),
            self.yields(old(input).sub@, outputs@),
    ;
}

/// A routine with no output, run for its side effects.
pub struct Effect<F>(pub F);

/// A routine that produces one value.
pub struct Compute1<F>(pub F);

/// A routine that produces two values.
pub struct Compute2<F>(pub F);

/// A routine that produces three values.
pub struct Compute3<F>(pub F);

/// A routine that produces four values.
pub struct Compute4<F>(pub F);

/// A routine that produces five values.
pub struct Compute5<F>(pub F);

/// The function `f` may be called on every input over `graph`.
pub open spec fn callable_on<V, T, F: Fn(&mut RxInput<'_, V>) -> T>(
    f: F,
    graph: RxSubDAGView<V>,
) -> bool {
    forall|input: &mut RxInput<'_, V>| input.sub@ == graph ==> f.requires((input,))
}

/// Called on some input over `graph`, the function `f` may return `result`.
pub open spec fn may_return<V, T, F: Fn(&mut RxInput<'_, V>) -> T>(
    f: F,
    graph: RxSubDAGView<V>,
    result: T,
) -> bool {
    exists|input: &mut RxInput<'_, V>| input.sub@ == graph && f.ensures((input,), result)
}

impl<V, F: Fn(&mut RxInput<'_, V>)> RxCompute<V> for Effect<F> {
    open spec fn num_outputs(&self) -> nat {
        0
    }

    open spec fn accepts(&self, graph: RxSubDAGView<V>) -> bool {
        callable_on(self.0, graph)
    }

    open spec fn yields(&self, graph: RxSubDAGView<V>, outputs: Seq<V>) -> bool {
        outputs.len() == 0 && may_return(self.0, graph, ())
    }

    fn compute(&self, input: &mut RxInput<'_, V>) -> (outputs: Vec<V>) {
        (self.0)(input);
        Vec::new()
    }
}

impl<V, F: Fn(&mut RxInput<'_, V>) -> V> RxCompute<V> for Compute1<F> {
    open spec fn num_outputs(&self) -> nat {
        1
    }

    open spec fn accepts(&self, graph: RxSubDAGView<V>) -> bool {
        callable_on(self.0, graph)
    }

    open spec fn yields(&self, graph: RxSubDAGView<V>, outputs: Seq<V>) -> bool {
        outputs.len() == 1 && may_return(self.0, graph, outputs[0])
    }

    fn compute(&self, input: &mut RxInput<'_, V>) -> (outputs: Vec<V>) {
        let output = (self.0)(input);
        let mut outputs = Vec::new();
        outputs.push(output);
        outputs
    }
}

impl<V, F: Fn(&mut RxInput<'_, V>) -> (V, V)> RxCompute<V> for Compute2<F> {
    open spec fn num_outputs(&self) -> nat {
        2
    }

    open spec fn accepts(&self, graph: RxSubDAGView<V>) -> bool {
        callable_on(self.0, graph)
    }

    open spec fn yields(&self, graph: RxSubDAGView<V>, outputs: Seq<V>) -> bool {
        outputs.len() == 2 && may_return(self.0, graph, (outputs[0], outputs[1]))
    }

    fn compute(&self, input: &mut RxInput<'_, V>) -> (outputs: Vec<V>) {
        let (output1, output2) = (self.0)(input);
        let mut outputs = Vec::new();
        outputs.push(output1);
        outputs.push(output2);
        outputs
    }
}

impl<V, F: Fn(&mut RxInput<'_, V>) -> (V, V, V)> RxCompute<V> for Compute3<F> {
    open spec fn num_outputs(&self) -> nat {
        3
    }

    open spec fn accepts(&self, graph: RxSubDAGView<V>) -> bool {
        callable_on(self.0, graph)
    }

    open spec fn yields(&self, graph: RxSubDAGView<V>, outputs: Seq<V>) -> bool {
        outputs.len() == 3 && may_return(self.0, graph, (outputs[0], outputs[1], outputs[2]))
    }

    fn compute(&self, input: &mut RxInput<'_, V>) -> (outputs: Vec<V>) {
        let (output1, output2, output3) = (self.0)(input);
        let mut outputs = Vec::new();
        outputs.push(output1);
        outputs.push(output2);
        outputs.push(output3);
        outputs
    }
}

impl<V, F: Fn(&mut RxInput<'_, V>) -> (V, V, V, V)> RxCompute<V> for Compute4<F> {
    open spec fn num_outputs(&self) -> nat {
        4
    }

    open spec fn accepts(&self, graph: RxSubDAGView<V>) -> bool {
        callable_on(self.0, graph)
    }

    open spec fn yields(&self, graph: RxSubDAGView<V>, outputs: Seq<V>) -> bool {
        outputs.len() == 4 && may_return(
            self.0,
            graph,
            (outputs[0], outputs[1], outputs[2], outputs[3]),
        )
    }

    fn compute(&self, input: &mut RxInput<'_, V>) -> (outputs: Vec<V>) {
        let (output1, output2, output3, output4) = (self.0)(input);
        let mut outputs = Vec::new();
        outputs.push(output1);
        outputs.push(output2);
        outputs.push(output3);
        outputs.push(output4);
        outputs
    }
}

impl<V, F: Fn(&mut RxInput<'_, V>) -> (V, V, V, V, V)> RxCompute<V> for Compute5<F> {
    open spec fn num_outputs(&self) -> nat {
        5
    }

    open spec fn accepts(&self, graph: RxSubDAGView<V>) -> bool {
        callable_on(self.0, graph)
    }

    open spec fn yields(&self, graph: RxSubDAGView<V>, outputs: Seq<V>) -> bool {
        outputs.len() == 5 && may_return(
            self.0,
            graph,
            (outputs[0], outputs[1], outputs[2], outputs[3], outputs[4]),
        )
    }

    fn compute(&self, input: &mut RxInput<'_, V>) -> (outputs: Vec<V>) {
        let (output1, output2, output3, output4, output5) = (self.0)(input);
        let mut outputs = Vec::new();
        outputs.push(output1);
        outputs.push(output2);
        outputs.push(output3);
        outputs.push(output4);
        outputs.push(output5);
        outputs
    }
}

/// The kept routine `kept` behaves as `routine` does: it produces as many values, may be
/// run on the same inputs, and may produce the same values from them.
pub open spec fn stands_for<V, R: RxCompute<V>>(kept: RxRoutine<'_, V>, routine: R) -> bool {
    &&& kept.num_outputs() == routine.num_outputs()
    &&& forall|graph: RxSubDAGView<V>| #[trigger] kept.accepts(graph) == routine.accepts(graph)
    &&& forall|graph: RxSubDAGView<V>, outputs: Seq<V>| #[trigger]
        kept.yields(graph, outputs) == routine.yields(graph, outputs)
}

/// A compute routine of any number of outputs, as a graph keeps it.
#[verifier::reject_recursive_types(V)]
pub struct RxRoutine<'c, V> {
    pub inner: Box<dyn RxCompute<V> + 'c>,
}

impl<'c, V> RxRoutine<'c, V> {
    /// How many values the routine produces.
    pub open spec fn num_outputs(&self) -> nat {
        self.inner.num_outputs()
    }

    /// The routine may be run on an input over `graph`.
    pub open spec fn accepts(&self, graph: RxSubDAGView<V>) -> bool {
        self.inner.accepts(graph)
    }

    /// Run on an input over `graph`, the routine may produce `outputs`.
    pub open spec fn yields(&self, graph: RxSubDAGView<V>, outputs: Seq<V>) -> bool {
        self.inner.yields(graph, outputs)
    }

    /// Keeps `f` as a routine of no output.
    pub fn effect<F: Fn(&mut RxInput<'_, V>) + 'c>(f: F) -> (kept: Self)
        ensures
            stands_for(kept, Effect(f)),
    {
        RxRoutine { inner: Box::new(Effect(f)) }
    }

    /// Keeps `f` as a routine of one output.
    pub fn one<F: Fn(&mut RxInput<'_, V>) -> V + 'c>(f: F) -> (kept: Self)
        ensures
            stands_for(kept, Compute1(f)),
    {
        RxRoutine { inner: Box::new(Compute1(f)) }
    }

    /// Keeps `f` as a routine of two outputs.
    pub fn two<F: Fn(&mut RxInput<'_, V>) -> (V, V) + 'c>(f: F) -> (kept: Self)
        ensures
            stands_for(kept, Compute2(f)),
    {
        RxRoutine { inner: Box::new(Compute2(f)) }
    }

    /// Keeps `f` as a routine of three outputs.
    pub fn three<F: Fn(&mut RxInput<'_, V>) -> (V, V, V) + 'c>(f: F) -> (kept: Self)
        ensures
            stands_for(kept, Compute3(f)),
    {
        RxRoutine { inner: Box::new(Compute3(f)) }
    }

    /// Keeps `f` as a routine of four outputs.
    pub fn four<F: Fn(&mut RxInput<'_, V>) -> (V, V, V, V) + 'c>(f: F) -> (kept: Self)
        ensures
            stands_for(kept, Compute4(f)),
    {
        RxRoutine { inner: Box::new(Compute4(f)) }
    }

    /// Keeps `f` as a routine of five outputs.
    pub fn five<F: Fn(&mut RxInput<'_, V>) -> (V, V, V, V, V) + 'c>(f: F) -> (kept: Self)
        ensures
            stands_for(kept, Compute5(f)),
    {
        RxRoutine { inner: Box::new(Compute5(f)) }
    }

    /// Runs the routine, reading cells through `input`.
    pub fn compute(&self, input: &mut RxInput<'_, V>) -> (outputs: Vec<V>)
        requires
            self.accepts(old(input).sub@),
        ensures
            outputs@.len() == self.num_outputs(),
            self.yields(old(input).sub@, outputs@),
    {
        self.inner.compute(input)
    }
}

} // verus!
