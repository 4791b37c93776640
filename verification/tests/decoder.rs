use sandkit::decode::{
    decode_returned_shape, decode_returned_untagged, decode_shape, decode_shape2d,
    DecodeErrorKind, FieldName, Seg, VariantName,
};
use sandkit::shape::{Chain, Circle, Difference2d, Shape, Shape2d, Sketch, Sweep, Vec3};
use sandkit::value::Value;

fn obj(fields: Vec<(&str, Value)>) -> Value {
    Value::Obj(fields.into_iter().map(|(k, v)| (k.to_string(), v)).collect())
}

fn txt(s: &str) -> Value {
    Value::Text(s.to_string())
}

fn circle_value(radius: i64) -> Value {
    obj(vec![("type", txt("Circle")), ("radius", Value::Num(radius))])
}

fn sketch_value(radius: i64) -> Value {
    obj(vec![("type", txt("Sketch")), ("chain", circle_value(radius))])
}

fn sketch_shape(radius: i64) -> Shape2d {
    Shape2d::Sketch(Sketch { chain: Chain::Circle(Circle { radius }) })
}

#[test]
fn decodes_a_sketch_of_a_circle() {
    let v = sketch_value(2_000_000);
    let shape = decode_returned_shape(&v).unwrap();
    assert_eq!(shape, Shape::Shape2d(sketch_shape(2_000_000)));
}

#[test]
fn decodes_a_circle_at_top_level() {
    let v = circle_value(750_000);
    let shape = decode_returned_shape(&v).unwrap();
    assert_eq!(shape, Shape::Circle(Circle { radius: 750_000 }));
}

#[test]
fn decodes_a_difference_of_two_sketches() {
    let v = obj(vec![
        ("type", txt("Difference2d")),
        ("shapes", Value::Arr(vec![sketch_value(1_000_000), sketch_value(500_000)])),
    ]);
    let shape = decode_returned_shape(&v).unwrap();
    assert_eq!(
        shape,
        Shape::Shape2d(Shape2d::Difference2d(Difference2d {
            minuend: Box::new(sketch_shape(1_000_000)),
            subtrahend: Box::new(sketch_shape(500_000)),
        }))
    );
}

#[test]
fn difference_operands_keep_their_order() {
    let v = obj(vec![
        ("type", txt("Difference2d")),
        ("shapes", Value::Arr(vec![sketch_value(500_000), sketch_value(1_000_000)])),
    ]);
    let shape = decode_returned_shape(&v).unwrap();
    match shape {
        Shape::Shape2d(Shape2d::Difference2d(d)) => {
            assert_eq!(*d.minuend, sketch_shape(500_000));
            assert_eq!(*d.subtrahend, sketch_shape(1_000_000));
        }
        other => panic!("expected a difference, got {:?}", other),
    }
}

#[test]
fn decodes_a_sweep() {
    let v = obj(vec![
        ("type", txt("Sweep")),
        ("shape", sketch_value(1_000_000)),
        (
            "path",
            Value::Arr(vec![Value::Num(0), Value::Num(0), Value::Num(1_000_000)]),
        ),
    ]);
    let shape = decode_returned_shape(&v).unwrap();
    assert_eq!(
        shape,
        Shape::Sweep(Sweep {
            shape: sketch_shape(1_000_000),
            path: Vec3 { x: 0, y: 0, z: 1_000_000 },
        })
    );
}

#[test]
fn decodes_an_empty_group() {
    let v = obj(vec![("type", txt("Group")), ("members", Value::Arr(vec![]))]);
    let shape = decode_returned_shape(&v).unwrap();
    match shape {
        Shape::Group(g) => assert!(g.members.is_empty()),
        other => panic!("expected a group, got {:?}", other),
    }
}

#[test]
fn decodes_a_group_of_members_in_order() {
    let v = obj(vec![
        ("type", txt("Group")),
        ("members", Value::Arr(vec![circle_value(1), sketch_value(2)])),
    ]);
    let shape = decode_returned_shape(&v).unwrap();
    match shape {
        Shape::Group(g) => {
            assert_eq!(g.members.len(), 2);
            assert_eq!(g.members[0], Shape::Circle(Circle { radius: 1 }));
            assert_eq!(g.members[1], Shape::Shape2d(sketch_shape(2)));
        }
        other => panic!("expected a group, got {:?}", other),
    }
}

#[test]
fn decodes_a_transform_with_sixteen_entries() {
    let mut entries = Vec::new();
    for i in 0..16 {
        entries.push(Value::Num(i));
    }
    let v = obj(vec![
        ("type", txt("Transform")),
        ("shape", circle_value(1_000_000)),
        ("matrix", Value::Arr(entries)),
    ]);
    let shape = decode_returned_shape(&v).unwrap();
    match shape {
        Shape::Transform(t) => {
            assert_eq!(*t.shape, Shape::Circle(Circle { radius: 1_000_000 }));
            assert_eq!(t.matrix.len(), 16);
            assert_eq!(t.matrix[3], 3);
        }
        other => panic!("expected a transform, got {:?}", other),
    }
}

#[test]
fn transform_matrix_of_fifteen_entries_is_an_arity_error() {
    let mut entries = Vec::new();
    for i in 0..15 {
        entries.push(Value::Num(i));
    }
    let v = obj(vec![
        ("type", txt("Transform")),
        ("shape", circle_value(1_000_000)),
        ("matrix", Value::Arr(entries)),
    ]);
    let e = decode_returned_shape(&v).unwrap_err();
    assert_eq!(e.kind, DecodeErrorKind::Arity);
    assert_eq!(
        e.path,
        vec![Seg::Variant(VariantName::Transform), Seg::Field(FieldName::Matrix)]
    );
}

#[test]
fn difference_of_one_operand_is_an_arity_error() {
    let v = obj(vec![
        ("type", txt("Difference2d")),
        ("shapes", Value::Arr(vec![sketch_value(1_000_000)])),
    ]);
    let e = decode_returned_shape(&v).unwrap_err();
    assert_eq!(e.kind, DecodeErrorKind::Arity);
    assert_eq!(
        e.path,
        vec![Seg::Variant(VariantName::Difference2d), Seg::Field(FieldName::Shapes)]
    );
}

#[test]
fn difference_of_three_operands_is_an_arity_error() {
    let v = obj(vec![
        ("type", txt("Difference2d")),
        (
            "shapes",
            Value::Arr(vec![
                sketch_value(1_000_000),
                sketch_value(1_000_000),
                sketch_value(1_000_000),
            ]),
        ),
    ]);
    let e = decode_returned_shape(&v).unwrap_err();
    assert_eq!(e.kind, DecodeErrorKind::Arity);
    assert_eq!(
        e.path,
        vec![Seg::Variant(VariantName::Difference2d), Seg::Field(FieldName::Shapes)]
    );
}

#[test]
fn unknown_discriminator_is_rejected() {
    let v = obj(vec![("type", txt("Unknown"))]);
    let e = decode_returned_shape(&v).unwrap_err();
    assert_eq!(e.kind, DecodeErrorKind::UnknownVariant);
    assert_eq!(e.path, vec![Seg::Field(FieldName::TypeTag)]);
}

#[test]
fn negative_radius_is_rejected_at_circle_radius() {
    let v = circle_value(-1_000_000);
    let e = decode_returned_shape(&v).unwrap_err();
    assert_eq!(e.kind, DecodeErrorKind::NonPositive);
    assert_eq!(
        e.path,
        vec![Seg::Variant(VariantName::Circle), Seg::Field(FieldName::Radius)]
    );
}

#[test]
fn zero_radius_is_rejected() {
    let e = decode_returned_shape(&circle_value(0)).unwrap_err();
    assert_eq!(e.kind, DecodeErrorKind::NonPositive);
}

#[test]
fn textual_radius_is_rejected_at_circle_radius() {
    let v = obj(vec![("type", txt("Circle")), ("radius", txt("abc"))]);
    let e = decode_returned_shape(&v).unwrap_err();
    assert_eq!(e.kind, DecodeErrorKind::WrongType);
    assert_eq!(
        e.path,
        vec![Seg::Variant(VariantName::Circle), Seg::Field(FieldName::Radius)]
    );
}

#[test]
fn missing_radius_is_rejected() {
    let v = obj(vec![("type", txt("Circle"))]);
    let e = decode_returned_shape(&v).unwrap_err();
    assert_eq!(e.kind, DecodeErrorKind::MissingField);
    assert_eq!(
        e.path,
        vec![Seg::Variant(VariantName::Circle), Seg::Field(FieldName::Radius)]
    );
}

#[test]
fn missing_discriminator_is_rejected() {
    let v = obj(vec![("radius", Value::Num(1))]);
    let e = decode_returned_shape(&v).unwrap_err();
    assert_eq!(e.kind, DecodeErrorKind::MissingField);
    assert_eq!(e.path, vec![Seg::Field(FieldName::TypeTag)]);
}

#[test]
fn non_object_value_is_rejected() {
    let e = decode_returned_shape(&Value::Num(7)).unwrap_err();
    assert_eq!(e.kind, DecodeErrorKind::WrongType);
    assert!(e.path.is_empty());
}

#[test]
fn unknown_chain_kind_is_rejected() {
    let v = obj(vec![
        ("type", txt("Sketch")),
        ("chain", obj(vec![("type", txt("Line"))])),
    ]);
    let e = decode_returned_shape(&v).unwrap_err();
    assert_eq!(e.kind, DecodeErrorKind::UnknownVariant);
    assert_eq!(
        e.path,
        vec![
            Seg::Variant(VariantName::Sketch),
            Seg::Field(FieldName::Chain),
            Seg::Field(FieldName::TypeTag),
        ]
    );
}

#[test]
fn error_path_names_the_failing_operand() {
    let v = obj(vec![
        ("type", txt("Difference2d")),
        ("shapes", Value::Arr(vec![sketch_value(1_000_000), circle_value(-5)])),
    ]);
    let e = decode_returned_shape(&v).unwrap_err();
    assert_eq!(
        e.path[..3],
        [
            Seg::Variant(VariantName::Difference2d),
            Seg::Field(FieldName::Shapes),
            Seg::Index(1),
        ]
    );
}

#[test]
fn sweep_path_of_two_components_is_an_arity_error() {
    let v = obj(vec![
        ("type", txt("Sweep")),
        ("shape", sketch_value(1_000_000)),
        ("path", Value::Arr(vec![Value::Num(0), Value::Num(1)])),
    ]);
    let e = decode_returned_shape(&v).unwrap_err();
    assert_eq!(e.kind, DecodeErrorKind::Arity);
    assert_eq!(
        e.path,
        vec![Seg::Variant(VariantName::Sweep), Seg::Field(FieldName::Path)]
    );
}

#[test]
fn sweep_path_with_textual_component_names_its_index() {
    let v = obj(vec![
        ("type", txt("Sweep")),
        ("shape", sketch_value(1_000_000)),
        ("path", Value::Arr(vec![Value::Num(0), txt("up"), Value::Num(0)])),
    ]);
    let e = decode_returned_shape(&v).unwrap_err();
    assert_eq!(e.kind, DecodeErrorKind::WrongType);
    assert_eq!(
        e.path,
        vec![
            Seg::Variant(VariantName::Sweep),
            Seg::Field(FieldName::Path),
            Seg::Index(1),
        ]
    );
}

#[test]
fn planar_decoder_rejects_a_sweep() {
    let v = obj(vec![
        ("type", txt("Sweep")),
        ("shape", sketch_value(1_000_000)),
        (
            "path",
            Value::Arr(vec![Value::Num(0), Value::Num(0), Value::Num(1)]),
        ),
    ]);
    let e = decode_shape2d(&v, 64).unwrap_err();
    assert_eq!(e.kind, DecodeErrorKind::UnknownVariant);
}

#[test]
fn decoding_twice_yields_identical_graphs() {
    let v = obj(vec![
        ("type", txt("Difference2d")),
        ("shapes", Value::Arr(vec![sketch_value(1_000_000), sketch_value(250_000)])),
    ]);
    let first = decode_returned_shape(&v);
    let second = decode_returned_shape(&v);
    assert_eq!(first, second);
}

#[test]
fn depth_budget_of_zero_is_a_depth_error() {
    let e = decode_shape(&circle_value(1), 0).unwrap_err();
    assert_eq!(e.kind, DecodeErrorKind::DepthExceeded);
}

#[test]
fn deeply_nested_value_fails_with_depth_error() {
    let mut v = sketch_value(1_000_000);
    for _ in 0..70 {
        v = obj(vec![
            ("type", txt("Difference2d")),
            ("shapes", Value::Arr(vec![v, sketch_value(1_000_000)])),
        ]);
    }
    let e = decode_returned_shape(&v).unwrap_err();
    assert_eq!(e.kind, DecodeErrorKind::DepthExceeded);
}

#[test]
fn value_just_inside_the_depth_budget_decodes() {
    let mut v = sketch_value(1_000_000);
    for _ in 0..60 {
        v = obj(vec![
            ("type", txt("Difference2d")),
            ("shapes", Value::Arr(vec![v, sketch_value(1_000_000)])),
        ]);
    }
    assert!(decode_returned_shape(&v).is_ok());
}

#[test]
fn untagged_group_decodes_without_discriminator() {
    let v = obj(vec![("members", Value::Arr(vec![circle_value(1_000_000)]))]);
    let shape = decode_returned_untagged(&v).unwrap();
    match shape {
        Shape::Group(g) => assert_eq!(g.members.len(), 1),
        other => panic!("expected a group, got {:?}", other),
    }
}

#[test]
fn untagged_difference_decodes_without_discriminator() {
    let v = obj(vec![(
        "shapes",
        Value::Arr(vec![sketch_value(1_000_000), sketch_value(500_000)]),
    )]);
    let shape = decode_returned_untagged(&v).unwrap();
    assert!(matches!(shape, Shape::Shape2d(Shape2d::Difference2d(_))));
}

#[test]
fn untagged_sketch_decodes_without_discriminator() {
    let v = obj(vec![("chain", circle_value(1_000_000))]);
    let shape = decode_returned_untagged(&v).unwrap();
    assert_eq!(shape, Shape::Shape2d(sketch_shape(1_000_000)));
}

#[test]
fn untagged_decode_prefers_group_over_sketch() {
    let v = obj(vec![
        ("members", Value::Arr(vec![])),
        ("chain", circle_value(1_000_000)),
    ]);
    let shape = decode_returned_untagged(&v).unwrap();
    assert!(matches!(shape, Shape::Group(_)));
}

#[test]
fn untagged_decode_prefers_difference_over_sketch() {
    let v = obj(vec![
        ("shapes", Value::Arr(vec![sketch_value(1_000_000), sketch_value(2)])),
        ("chain", circle_value(1_000_000)),
    ]);
    let shape = decode_returned_untagged(&v).unwrap();
    assert!(matches!(shape, Shape::Shape2d(Shape2d::Difference2d(_))));
}

#[test]
fn untagged_decode_is_reproducible() {
    let v = obj(vec![
        ("members", Value::Arr(vec![])),
        ("chain", circle_value(1_000_000)),
    ]);
    assert_eq!(decode_returned_untagged(&v), decode_returned_untagged(&v));
}

#[test]
fn untagged_decode_with_no_matching_variant_fails() {
    let v = obj(vec![("radius", Value::Num(1_000_000))]);
    let e = decode_returned_untagged(&v).unwrap_err();
    assert_eq!(e.kind, DecodeErrorKind::NoVariantMatched);
}

#[test]
fn zero_sweep_path_is_accepted_and_passed_through() {
    let v = obj(vec![
        ("type", txt("Sweep")),
        ("shape", sketch_value(1_000_000)),
        ("path", Value::Arr(vec![Value::Num(0), Value::Num(0), Value::Num(0)])),
    ]);
    let shape = decode_returned_shape(&v).unwrap();
    match shape {
        Shape::Sweep(sw) => assert_eq!(sw.path, Vec3 { x: 0, y: 0, z: 0 }),
        other => panic!("expected a sweep, got {:?}", other),
    }
}

#[test]
fn untagged_decode_of_a_non_object_is_rejected() {
    let e = decode_returned_untagged(&Value::Num(3)).unwrap_err();
    assert_eq!(e.kind, DecodeErrorKind::WrongType);
}

#[test]
fn duplicate_fields_resolve_to_the_first() {
    let v = obj(vec![
        ("type", txt("Circle")),
        ("radius", Value::Num(3)),
        ("radius", Value::Num(-1)),
    ]);
    let shape = decode_returned_shape(&v).unwrap();
    assert_eq!(shape, Shape::Circle(Circle { radius: 3 }));
}
