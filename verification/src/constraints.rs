//! Constraints: declarative conditions on primitives.
//!
//! A constraint pins the primitives it references and is stateless beyond
//! those references and its numeric targets. Its scalar loss and analytic
//! gradient are floating-point formulas evaluated by the numeric driver;
//! the library owns the reference plumbing — which primitives a constraint
//! touches — which is what the sketch's gradient routing depends on.

use vstd::prelude::*;

verus! {

/// Requires a line to be vertical: the driver's loss for it is half the
/// squared difference of the endpoints' x coordinates, zero exactly when
/// the line is vertical.
#[derive(Clone, Copy)]
pub struct VerticalLine {
    line: usize,
}

/// The closed set of constraint kinds a sketch can hold.
#[derive(Clone, Copy)]
pub enum ConstraintType {
    VerticalLine(VerticalLine),
}

impl VerticalLine {
    /// Arena index of the constrained line, as a specification.
    pub closed spec fn line_id(self) -> usize {
        self.line
    }

    /// A vertical-line constraint on the line at the given arena index.
    pub fn new(line: usize) -> (c: Self)
        ensures
            c.line_id() == line,
    {
        Self { line }
    }

    /// Arena index of the constrained line.
    pub fn line(&self) -> (r: usize)
        ensures
            r == self.line_id(),
    {
        self.line
    }

    /// Re-target the constraint at another line.
    pub fn set_line(&mut self, line: usize)
        ensures
            final(self).line_id() == line,
    {
        self.line = line;
    }

    /// Arena indices of the primitives this constraint pins.
    pub fn references(&self) -> (r: Vec<usize>)
        ensures
            r@ == seq![self.line_id()],
    {
        let mut r: Vec<usize> = Vec::new();
        r.push(self.line);
        assert(r@ =~= seq![self.line_id()]);
        r
    }

    /// This constraint, tagged with its kind.
    pub fn get_type(&self) -> (t: ConstraintType)
        ensures
            t == ConstraintType::VerticalLine(*self),
    {
        ConstraintType::VerticalLine(*self)
    }
}

impl ConstraintType {
    /// Arena indices of the primitives the wrapped constraint pins.
    pub fn references(&self) -> (r: Vec<usize>)
        ensures
            r@ == self.spec_references(),
    {
        match self {
            ConstraintType::VerticalLine(c) => c.references(),
        }
    }

    /// The pinned arena indices, as a specification.
    pub open spec fn spec_references(self) -> Seq<usize> {
        match self {
            ConstraintType::VerticalLine(c) => seq![c.line_id()],
        }
    }
}

} // verus!
