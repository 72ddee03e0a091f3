//! Approximation and consistency checks of a boundary-representation kernel
//!
//! The library covers the parts of the kernel that decide structure: curve
//! boundaries, the cache that shares curve approximations between half-edges,
//! the assembly of half-edge approximations, the reversal and joining of
//! cycles and regions in an arena of topological objects, the decisions of the
//! validation checks, and the trees and graphs of the trapezoidation.
//!
//! Numeric geometry (evaluating paths and surfaces, sampling circles, measuring
//! distances and windings) is supplied by the caller, as plain values or as
//! closures whose results the contracts speak of.

pub mod approx;
pub mod boundary;
pub mod cache;
pub mod join;
pub mod reverse;
pub mod reverse_coordinates;
pub mod topology;
pub mod trapezoidation;
pub mod validate;
