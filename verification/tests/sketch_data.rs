use isotope::primitives::{Line, Point2, SketchPrimitives};
use isotope::sketch::{Sketch, SketchError};

fn bits(v: f64) -> u64 {
    v.to_bits()
}

#[test]
fn empty_sketch_has_empty_data() {
    let sketch = Sketch::new();
    assert_eq!(sketch.num_primitives(), 0);
    assert_eq!(sketch.num_constraints(), 0);
    assert!(sketch.get_data().is_empty());
    assert!(sketch.read_gradient().is_empty());
}

#[test]
fn get_data_concatenates_points_in_insertion_order() {
    let mut sketch = Sketch::new();
    let a = sketch
        .add_primitive(SketchPrimitives::Point2(Point2::new(bits(3.0), bits(4.0))))
        .unwrap();
    let b = sketch
        .add_primitive(SketchPrimitives::Point2(Point2::new(bits(5.0), bits(6.0))))
        .unwrap();
    let l = sketch
        .add_primitive(SketchPrimitives::Line(Line::new(a, b)))
        .unwrap();
    assert_eq!((a, b, l), (0, 1, 2));

    // the line owns no slots of its own: four words in total
    let data = sketch.get_data();
    assert_eq!(data, vec![bits(3.0), bits(4.0), bits(5.0), bits(6.0)]);
}

#[test]
fn set_data_writes_each_slot_back() {
    let mut sketch = Sketch::new();
    let a = sketch
        .add_primitive(SketchPrimitives::Point2(Point2::new(bits(3.0), bits(4.0))))
        .unwrap();
    let b = sketch
        .add_primitive(SketchPrimitives::Point2(Point2::new(bits(5.0), bits(6.0))))
        .unwrap();
    sketch
        .add_primitive(SketchPrimitives::Line(Line::new(a, b)))
        .unwrap();

    let new_data = vec![bits(-1.0), bits(0.5), bits(2.0), bits(8.25)];
    sketch.set_data(&new_data).unwrap();
    assert_eq!(sketch.get_data(), new_data);
    assert_eq!(sketch.point_data(a).unwrap(), (bits(-1.0), bits(0.5)));
    assert_eq!(sketch.point_data(b).unwrap(), (bits(2.0), bits(8.25)));
}

#[test]
fn points_after_composites_keep_their_slots() {
    let mut sketch = Sketch::new();
    let a = sketch
        .add_primitive(SketchPrimitives::Point2(Point2::new(bits(1.0), bits(2.0))))
        .unwrap();
    let b = sketch
        .add_primitive(SketchPrimitives::Point2(Point2::new(bits(3.0), bits(4.0))))
        .unwrap();
    sketch
        .add_primitive(SketchPrimitives::Line(Line::new(a, b)))
        .unwrap();
    let c = sketch
        .add_primitive(SketchPrimitives::Point2(Point2::new(bits(5.0), bits(6.0))))
        .unwrap();

    // the line between them owns nothing: six words, in insertion order
    let data = sketch.get_data();
    assert_eq!(
        data,
        vec![bits(1.0), bits(2.0), bits(3.0), bits(4.0), bits(5.0), bits(6.0)]
    );

    let new_data: Vec<u64> = [10.0, 20.0, 30.0, 40.0, 50.0, 60.0]
        .iter()
        .map(|v| bits(*v))
        .collect();
    sketch.set_data(&new_data).unwrap();
    assert_eq!(sketch.point_data(a).unwrap(), (bits(10.0), bits(20.0)));
    assert_eq!(sketch.point_data(b).unwrap(), (bits(30.0), bits(40.0)));
    assert_eq!(sketch.point_data(c).unwrap(), (bits(50.0), bits(60.0)));
    assert_eq!(sketch.get_data(), new_data);
}

#[test]
fn set_data_rejects_wrong_length_and_changes_nothing() {
    let mut sketch = Sketch::new();
    sketch
        .add_primitive(SketchPrimitives::Point2(Point2::new(bits(1.0), bits(2.0))))
        .unwrap();
    let before = sketch.get_data();

    let too_short = vec![bits(9.0)];
    assert_eq!(
        sketch.set_data(&too_short),
        Err(SketchError::DataLengthMismatch)
    );
    let too_long = vec![bits(9.0), bits(9.0), bits(9.0)];
    assert_eq!(
        sketch.set_data(&too_long),
        Err(SketchError::DataLengthMismatch)
    );
    assert_eq!(sketch.get_data(), before);
}

#[test]
fn set_get_round_trip_is_a_no_op() {
    let mut sketch = Sketch::new();
    let a = sketch
        .add_primitive(SketchPrimitives::Point2(Point2::new(bits(0.25), bits(-7.5))))
        .unwrap();
    let b = sketch
        .add_primitive(SketchPrimitives::Point2(Point2::new(bits(1e-9), bits(3.25))))
        .unwrap();
    let l = sketch
        .add_primitive(SketchPrimitives::Line(Line::new(a, b)))
        .unwrap();
    sketch.set_point_gradient(a, bits(0.5), bits(0.125)).unwrap();

    let data = sketch.get_data();
    let gradient = sketch.read_gradient();
    sketch.set_data(&data).unwrap();

    assert_eq!(sketch.get_data(), data);
    assert_eq!(sketch.read_gradient(), gradient);
    assert_eq!(sketch.point_data(a).unwrap(), (bits(0.25), bits(-7.5)));
    assert_eq!(sketch.point_gradient(a).unwrap(), (bits(0.5), bits(0.125)));
    assert_eq!(sketch.line_points(l).unwrap(), (a, b));
}

#[test]
fn gradient_vector_is_aligned_with_data_vector() {
    let mut sketch = Sketch::new();
    let a = sketch
        .add_primitive(SketchPrimitives::Point2(Point2::new(bits(1.0), bits(2.0))))
        .unwrap();
    let b = sketch
        .add_primitive(SketchPrimitives::Point2(Point2::new(bits(3.0), bits(4.0))))
        .unwrap();
    sketch
        .add_primitive(SketchPrimitives::Line(Line::new(a, b)))
        .unwrap();

    sketch.zero_gradients();
    let zeroed = sketch.read_gradient();
    assert_eq!(zeroed.len(), sketch.get_data().len());
    assert!(zeroed.iter().all(|w| *w == 0));
    // the all-zero word pattern is exactly floating-point zero
    assert!(zeroed.iter().all(|w| f64::from_bits(*w) == 0.0));

    // slot pairs follow insertion order: a's pair first, then b's
    sketch.set_point_gradient(b, bits(0.5), bits(-0.5)).unwrap();
    let g = sketch.read_gradient();
    assert_eq!(
        g,
        vec![0, 0, bits(0.5), bits(-0.5)]
    );

    // gradient passes never touch parameter words
    assert_eq!(sketch.point_data(a).unwrap(), (bits(1.0), bits(2.0)));
    assert_eq!(sketch.point_data(b).unwrap(), (bits(3.0), bits(4.0)));
}

#[test]
fn set_point_gradient_rejects_non_points() {
    let mut sketch = Sketch::new();
    let a = sketch
        .add_primitive(SketchPrimitives::Point2(Point2::new(bits(0.0), bits(0.0))))
        .unwrap();
    let b = sketch
        .add_primitive(SketchPrimitives::Point2(Point2::new(bits(1.0), bits(0.0))))
        .unwrap();
    let l = sketch
        .add_primitive(SketchPrimitives::Line(Line::new(a, b)))
        .unwrap();

    assert_eq!(
        sketch.set_point_gradient(l, 1, 2),
        Err(SketchError::InvalidReference)
    );
    assert_eq!(
        sketch.set_point_gradient(99, 1, 2),
        Err(SketchError::InvalidReference)
    );
}
