//! A reactive dataflow runtime.
//!
//! `Rx` means "reactive value": a cell whose changes make the values that depend on it
//! recompute. An [`RxDAG`] stores the whole dependency graph as one ordered sequence of
//! cells and edges. Variables ([`Var`]) are set explicitly; computed values ([`CRx`]) are
//! produced by edges, which rerun whenever one of the cells they read has changed.
//!
//! Writes are buffered: [`Var::set`] only records a pending value, and the graph applies
//! all pending values and reruns the affected edges in one ordered pass when
//! [`RxDAG::recompute`] is called.
//!
//! All the cells of one graph hold values of one type `V`. A graph whose cells are to hold
//! values of several kinds takes for `V` an enum with one variant for each kind.
//!
//! Whatever changes the graph takes it by exclusive reference: creating a cell or an edge,
//! setting a variable, recomputing. Reading takes a facade ([`RxContext`]): a snapshot of
//! the graph, or the input that a compute routine is handed. The input records which
//! cells are read through it, and that is how an edge learns what it depends on: once,
//! when it is created.
//!
//! A handle is a position in the graph together with the identity of the graph. What a
//! handle may be used for is part of the contract of each operation, and
//! [`UntypedRxRef::is_valid_in`] and [`Var::is_valid_in`] test it at run time.
pub mod clone_set_fn;
pub mod dag;
pub mod dag_uid;
pub mod laws;
pub mod misc;
pub mod model;
pub mod rx_compute;
pub mod rx_impl;
pub mod rx_ref;

pub use clone_set_fn::CloneSetFn;
pub use dag::{RxContext, RxDAG, RxDAGSnapshot, RxInput, RxSubDAG};
pub use dag_uid::RxDAGUid;
pub use rx_ref::{CRx, DCRx, DVar, RxRef, UntypedRxRef, Var};
