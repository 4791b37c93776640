use sandkit::bridge::{Bridge, BridgeError};
use sandkit::decode::decode_returned_shape;
use sandkit::shape::{Chain, Circle, Difference2d, Shape, Shape2d, Sketch, Sweep, Vec3};
use sandkit::value::Value;

fn obj(fields: Vec<(&str, Value)>) -> Value {
    Value::Obj(fields.into_iter().map(|(k, v)| (k.to_string(), v)).collect())
}

fn txt(s: &str) -> Value {
    Value::Text(s.to_string())
}

fn circle_value(radius: i64) -> Value {
    obj(vec![("type", txt("Circle")), ("radius", Value::Num(radius))])
}

fn sketch_value(radius: i64) -> Value {
    obj(vec![("type", txt("Sketch")), ("chain", circle_value(radius))])
}

fn sketch_shape(radius: i64) -> Shape2d {
    Shape2d::Sketch(Sketch { chain: Chain::Circle(Circle { radius }) })
}

#[test]
fn bridge_and_decoder_agree_on_a_difference_of_unit_circles() {
    let mut bridge = Bridge::new();
    let c1 = bridge.op_circle_from_radius(1_000_000).unwrap();
    let s1 = bridge.op_sketch_from_circle(c1).unwrap();
    let c2 = bridge.op_circle_from_radius(1_000_000).unwrap();
    let s2 = bridge.op_sketch_from_circle(c2).unwrap();
    let d = bridge.op_difference2d(s1, s2).unwrap();
    let built = bridge.take_shape(d).unwrap();

    let described = obj(vec![
        ("type", txt("Difference2d")),
        (
            "shapes",
            Value::Arr(vec![sketch_value(1_000_000), sketch_value(1_000_000)]),
        ),
    ]);
    let decoded = decode_returned_shape(&described).unwrap();

    assert_eq!(built, decoded);
}

#[test]
fn bridge_builds_a_sweep() {
    let mut bridge = Bridge::new();
    let c = bridge.op_circle_from_radius(2_000_000).unwrap();
    let s = bridge.op_sketch_from_circle(c).unwrap();
    let w = bridge
        .op_sweep(s, Vec3 { x: 0, y: 0, z: 1_000_000 })
        .unwrap();
    let shape = bridge.take_shape(w).unwrap();
    assert_eq!(
        shape,
        Shape::Sweep(Sweep {
            shape: sketch_shape(2_000_000),
            path: Vec3 { x: 0, y: 0, z: 1_000_000 },
        })
    );
}

#[test]
fn bridge_builds_a_group_in_order() {
    let mut bridge = Bridge::new();
    let a = bridge.op_circle_from_radius(1).unwrap();
    let b = bridge.op_circle_from_radius(2).unwrap();
    let g = bridge.op_group(&vec![b, a]).unwrap();
    let shape = bridge.take_shape(g).unwrap();
    match shape {
        Shape::Group(group) => {
            assert_eq!(group.members.len(), 2);
            assert_eq!(group.members[0], Shape::Circle(Circle { radius: 2 }));
            assert_eq!(group.members[1], Shape::Circle(Circle { radius: 1 }));
        }
        other => panic!("expected a group, got {:?}", other),
    }
}

#[test]
fn bridge_builds_a_transform() {
    let mut bridge = Bridge::new();
    let c = bridge.op_circle_from_radius(1).unwrap();
    let mut matrix = Vec::new();
    for i in 0..16 {
        matrix.push(i);
    }
    let t = bridge.op_transform(c, matrix).unwrap();
    let shape = bridge.take_shape(t).unwrap();
    match shape {
        Shape::Transform(tr) => {
            assert_eq!(*tr.shape, Shape::Circle(Circle { radius: 1 }));
            assert_eq!(tr.matrix.len(), 16);
        }
        other => panic!("expected a transform, got {:?}", other),
    }
}

#[test]
fn non_positive_radius_is_a_hard_error() {
    let mut bridge = Bridge::new();
    assert_eq!(
        bridge.op_circle_from_radius(0),
        Err(BridgeError::NonPositive)
    );
    assert_eq!(
        bridge.op_circle_from_radius(-7),
        Err(BridgeError::NonPositive)
    );
    assert_eq!(bridge.len(), 0);
}

#[test]
fn unknown_handle_is_a_hard_error() {
    let mut bridge = Bridge::new();
    assert_eq!(
        bridge.op_sketch_from_circle(0),
        Err(BridgeError::UnknownHandle)
    );
    let c = bridge.op_circle_from_radius(1).unwrap();
    assert_eq!(
        bridge.op_difference2d(c, 9),
        Err(BridgeError::UnknownHandle)
    );
    assert_eq!(
        bridge.op_group(&vec![c, 9]),
        Err(BridgeError::UnknownHandle)
    );
}

#[test]
fn kind_mismatch_is_a_hard_error() {
    let mut bridge = Bridge::new();
    let c = bridge.op_circle_from_radius(1_000_000).unwrap();
    let s = bridge.op_sketch_from_circle(c).unwrap();
    assert_eq!(
        bridge.op_sketch_from_circle(s),
        Err(BridgeError::KindMismatch)
    );
    assert_eq!(bridge.op_difference2d(c, s), Err(BridgeError::KindMismatch));
    assert_eq!(bridge.op_difference2d(s, c), Err(BridgeError::KindMismatch));
    assert_eq!(
        bridge.op_sweep(c, Vec3 { x: 0, y: 0, z: 1 }),
        Err(BridgeError::KindMismatch)
    );
}

#[test]
fn transform_matrix_must_have_sixteen_entries() {
    let mut bridge = Bridge::new();
    let c = bridge.op_circle_from_radius(1).unwrap();
    assert_eq!(
        bridge.op_transform(c, vec![0, 1, 2]),
        Err(BridgeError::MatrixArity)
    );
}

#[test]
fn handles_stay_valid_after_composition() {
    let mut bridge = Bridge::new();
    let c = bridge.op_circle_from_radius(3_000_000).unwrap();
    let s = bridge.op_sketch_from_circle(c).unwrap();
    let d = bridge.op_difference2d(s, s).unwrap();
    let shape = bridge.take_shape(d).unwrap();
    assert_eq!(
        shape,
        Shape::Shape2d(Shape2d::Difference2d(Difference2d {
            minuend: Box::new(sketch_shape(3_000_000)),
            subtrahend: Box::new(sketch_shape(3_000_000)),
        }))
    );
}

#[test]
fn take_shape_rejects_an_unknown_handle() {
    let bridge = Bridge::new();
    assert_eq!(bridge.take_shape(0), Err(BridgeError::UnknownHandle));
}
