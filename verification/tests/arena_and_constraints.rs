use isotope::constraints::{ConstraintType, VerticalLine};
use isotope::primitives::{Line, Point2, SketchPrimitives};
use isotope::sketch::{Sketch, SketchError};

fn bits(v: f64) -> u64 {
    v.to_bits()
}

fn sketch_with_line() -> (Sketch, usize, usize, usize) {
    let mut sketch = Sketch::new();
    let a = sketch
        .add_primitive(SketchPrimitives::Point2(Point2::new(bits(3.0), bits(4.0))))
        .unwrap();
    let b = sketch
        .add_primitive(SketchPrimitives::Point2(Point2::new(bits(5.0), bits(6.0))))
        .unwrap();
    let l = sketch
        .add_primitive(SketchPrimitives::Line(Line::new(a, b)))
        .unwrap();
    (sketch, a, b, l)
}

#[test]
fn num_parameters_per_primitive_kind() {
    assert_eq!(Point2::num_parameters(), 2);
    assert_eq!(Line::num_parameters(), 4);
    let p = SketchPrimitives::Point2(Point2::new(bits(0.0), bits(0.0)));
    assert_eq!(p.num_parameters(), 2);
    let l = SketchPrimitives::Line(Line::new(0, 1));
    assert_eq!(l.num_parameters(), 4);
}

#[test]
fn add_primitive_rejects_dangling_line_references() {
    let mut sketch = Sketch::new();
    // no points registered yet
    assert_eq!(
        sketch.add_primitive(SketchPrimitives::Line(Line::new(0, 1))),
        Err(SketchError::InvalidReference)
    );
    assert_eq!(sketch.num_primitives(), 0);

    let a = sketch
        .add_primitive(SketchPrimitives::Point2(Point2::new(bits(0.0), bits(0.0))))
        .unwrap();
    let b = sketch
        .add_primitive(SketchPrimitives::Point2(Point2::new(bits(1.0), bits(1.0))))
        .unwrap();
    let l = sketch
        .add_primitive(SketchPrimitives::Line(Line::new(a, b)))
        .unwrap();

    // a line endpoint must be a point entry, not another line
    assert_eq!(
        sketch.add_primitive(SketchPrimitives::Line(Line::new(a, l))),
        Err(SketchError::InvalidReference)
    );
    // and must exist
    assert_eq!(
        sketch.add_primitive(SketchPrimitives::Line(Line::new(a, 77))),
        Err(SketchError::InvalidReference)
    );
    assert_eq!(sketch.num_primitives(), 3);
}

#[test]
fn add_constraint_requires_a_line_entry() {
    let (mut sketch, a, _b, l) = sketch_with_line();

    let ok = sketch.add_constraint(ConstraintType::VerticalLine(VerticalLine::new(l)));
    assert_eq!(ok, Ok(0));
    assert_eq!(sketch.num_constraints(), 1);

    // a constraint on a point entry or a missing entry is rejected
    assert_eq!(
        sketch.add_constraint(ConstraintType::VerticalLine(VerticalLine::new(a))),
        Err(SketchError::InvalidReference)
    );
    assert_eq!(
        sketch.add_constraint(ConstraintType::VerticalLine(VerticalLine::new(42))),
        Err(SketchError::InvalidReference)
    );
    assert_eq!(sketch.num_constraints(), 1);
}

#[test]
fn vertical_line_accessors() {
    let (mut sketch, _a, _b, l) = sketch_with_line();
    let mut constraint = VerticalLine::new(l);
    assert_eq!(constraint.line(), l);
    assert_eq!(constraint.references(), vec![l]);
    assert!(matches!(
        constraint.get_type(),
        ConstraintType::VerticalLine(_)
    ));

    constraint.set_line(7);
    assert_eq!(constraint.line(), 7);
    constraint.set_line(l);
    assert_eq!(constraint.get_type().references(), vec![l]);

    sketch
        .add_constraint(ConstraintType::VerticalLine(constraint))
        .unwrap();
    let held = sketch.constraints();
    assert_eq!(held.len(), 1);
    let ConstraintType::VerticalLine(c) = held[0];
    assert_eq!(c.line(), l);
}

#[test]
fn point_and_line_accessors() {
    let p = Point2::new(bits(2.5), bits(-0.75));
    assert_eq!(p.data(), (bits(2.5), bits(-0.75)));
    // a fresh point starts with a zeroed accumulator
    assert_eq!(p.gradient(), (0, 0));

    let line = Line::new(4, 9);
    assert_eq!(line.start(), 4);
    assert_eq!(line.end(), 9);
}

#[test]
fn primitive_references_report_composition() {
    let p = SketchPrimitives::Point2(Point2::new(bits(0.0), bits(0.0)));
    assert!(p.references().is_empty());
    let l = SketchPrimitives::Line(Line::new(4, 9));
    assert_eq!(l.references(), vec![4, 9]);
}

#[test]
fn line_points_reports_endpoints() {
    let (sketch, a, b, l) = sketch_with_line();
    assert_eq!(sketch.line_points(l).unwrap(), (a, b));
    assert_eq!(sketch.line_points(a), Err(SketchError::InvalidReference));
    assert_eq!(sketch.line_points(9), Err(SketchError::InvalidReference));

    assert!(matches!(
        sketch.primitive(l),
        Some(SketchPrimitives::Line(_))
    ));
    assert!(sketch.primitive(3).is_none());
}
