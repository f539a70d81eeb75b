//! Geometric primitives and their parameter layout.
//!
//! A primitive is a unit with a fixed number of real-valued parameters.
//! Atomic primitives (points) own their parameter slots; composite
//! primitives (lines) own none — their parameters are those of the points
//! they reference, reached through the sketch arena.
//!
//! Scalar values are opaque 64-bit words to this library. The word `0`
//! stands for the zero scalar; every other interpretation is the numeric
//! driver's concern.

use vstd::prelude::*;

verus! {

/// A planar point: two parameter words `(x, y)` and two gradient
/// accumulator words `(gx, gy)` of the same shape.
#[derive(Clone, Copy)]
pub struct Point2 {
    pub x: u64,
    pub y: u64,
    pub gx: u64,
    pub gy: u64,
}

impl Point2 {
    /// A fresh point at the given coordinates, with a zeroed gradient.
    pub fn new(x: u64, y: u64) -> (p: Self)
        ensures
            p == (Point2 { x, y, gx: 0, gy: 0 }),
    {
        Point2 { x, y, gx: 0, gy: 0 }
    }

    /// The current parameter words.
    pub fn data(&self) -> (d: (u64, u64))
        ensures
            d == (self.x, self.y),
    {
        (self.x, self.y)
    }

    /// The accumulated gradient words.
    pub fn gradient(&self) -> (g: (u64, u64))
        ensures
            g == (self.gx, self.gy),
    {
        (self.gx, self.gy)
    }

    /// Number of parameter slots a point owns.
    pub fn num_parameters() -> (n: usize)
        ensures
            n == 2,
    {
        2
    }
}

/// A line segment, composed of two points held by the sketch arena.
///
/// `start` and `end` are indices of `Point2` entries registered earlier in
/// the same sketch. The joint parameter vector of a line is the start
/// point's parameters followed by the end point's parameters — this column
/// ordering is the contract between composite primitives and constraints.
#[derive(Clone, Copy)]
pub struct Line {
    pub start: usize,
    pub end: usize,
}

impl Line {
    /// A line joining the points at the two given arena indices.
    pub fn new(start: usize, end: usize) -> (l: Self)
        ensures
            l == (Line { start, end }),
    {
        Line { start, end }
    }

    /// Arena index of the start point.
    pub fn start(&self) -> (r: usize)
        ensures
            r == self.start,
    {
        self.start
    }

    /// Arena index of the end point.
    pub fn end(&self) -> (r: usize)
        ensures
            r == self.end,
    {
        self.end
    }

    /// Length of a line's joint parameter vector: the two endpoints'
    /// parameters, start first. A line owns no slots of its own.
    pub fn num_parameters() -> (n: usize)
        ensures
            n == 4,
    {
        4
    }
}

/// The closed set of primitive kinds a sketch can hold.
#[derive(Clone, Copy)]
pub enum SketchPrimitives {
    Point2(Point2),
    Line(Line),
}

impl SketchPrimitives {
    /// Length of this primitive's (joint) parameter vector.
    pub fn num_parameters(&self) -> (n: usize)
        ensures
            n == self.spec_num_parameters(),
    {
        match self {
            SketchPrimitives::Point2(_) => Point2::num_parameters(),
            SketchPrimitives::Line(_) => Line::num_parameters(),
        }
    }

    /// Arena indices of the sub-primitives whose parameters make up this
    /// primitive's joint parameter vector; empty for an atomic primitive.
    pub fn references(&self) -> (r: Vec<usize>)
        ensures
            r@ == self.spec_references(),
    {
        match self {
            SketchPrimitives::Point2(_) => Vec::new(),
            SketchPrimitives::Line(l) => {
                let mut r: Vec<usize> = Vec::new();
                r.push(l.start);
                r.push(l.end);
                proof {
                    assert(r@ =~= seq![l.start, l.end]);
                }
                r
            },
        }
    }

    /// The referenced arena indices, as a specification.
    pub open spec fn spec_references(self) -> Seq<usize> {
        match self {
            SketchPrimitives::Point2(_) => Seq::empty(),
            SketchPrimitives::Line(l) => seq![l.start, l.end],
        }
    }

    /// Length of the (joint) parameter vector, as a specification.
    pub open spec fn spec_num_parameters(self) -> usize {
        match self {
            SketchPrimitives::Point2(_) => 2,
            SketchPrimitives::Line(_) => 4,
        }
    }

    /// The parameter words this primitive owns in the flat vector.
    /// Composites own none: their parameters live in the point entries.
    pub open spec fn owned_data(self) -> Seq<u64> {
        match self {
            SketchPrimitives::Point2(p) => seq![p.x, p.y],
            SketchPrimitives::Line(_) => Seq::empty(),
        }
    }

    /// The gradient words this primitive owns, shaped like `owned_data`.
    pub open spec fn owned_gradient(self) -> Seq<u64> {
        match self {
            SketchPrimitives::Point2(p) => seq![p.gx, p.gy],
            SketchPrimitives::Line(_) => Seq::empty(),
        }
    }
}

} // verus!
