//! A small planar boundary-representation geometry kernel.
//!
//! Regions of the plane are modelled as arrangements of oriented infinite
//! lines together with a combinatorial graph of boundary edges; the kernel
//! answers point-containment and line-slicing queries against such regions.
//! All coordinates are exact rationals, so every operation is deterministic
//! and independent of argument order, and the guarantees the region code
//! needs (two call sites intersecting the same pair of lines agree exactly)
//! are proved rather than approximated.

pub mod bignum;
pub mod scalar;
pub mod geometry;
pub mod brep_1d;
pub mod brep_2d;
pub mod laws;
pub mod algebra;
