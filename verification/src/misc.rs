//! Building blocks that are independent of the graph.
pub mod frozen_vec;
pub mod slice_split3;
