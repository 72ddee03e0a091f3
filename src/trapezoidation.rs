//! Data structures of the trapezoidation of polygons

pub mod graph;
pub mod tree;
