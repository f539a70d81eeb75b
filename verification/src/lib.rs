//! Structural core of a 2D parametric sketch solver.
//!
//! A sketch owns an ordered arena of geometric primitives (points and the
//! lines composed of them) together with the constraints placed on them, and
//! maintains the flat parameter vector that a numeric optimizer works on.
//! Scalar values are carried as opaque 64-bit words: the library verifies the
//! bookkeeping that the solver depends on — which slot belongs to which
//! primitive, that data and gradient vectors use one and the same ordering,
//! and that writing a parameter vector back is exact — while the arithmetic
//! on the words themselves belongs to the numeric driver built on top.

pub mod primitives;
pub mod constraints;
pub mod sketch;
