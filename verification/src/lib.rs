//! Point clouds on the tooth surface of a spherical-involute helicoid and on
//! the base cone it is generated from.
//!
//! The geometry is stated over the reals, in [`quaternion`], [`cone`] and
//! [`involute`], with the laws that hold of it. The executable part is the
//! sampling lattice of [`grid`]: it visits the cells of a surface in order
//! and collects the point that the caller computes for each of them.

pub mod cone;
pub mod grid;
pub mod involute;
pub mod quaternion;
pub mod reals;
pub mod trig;
pub mod vector;
