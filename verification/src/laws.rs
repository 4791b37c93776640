//! The decoder's laws: a canonical encoding of shapes, and proofs that
//! the decoder inverts it exactly — accepting any well-formed shape that
//! fits the recursion budget, rejecting with a depth error any that does
//! not, rejecting wrong arities and unknown discriminators, and choosing
//! trial-decode variants in the documented priority order.

use vstd::prelude::*;

use crate::decode::{
    DecodeErrorKind, DecodeErrorModel, FieldName, Seg, VariantName, at_root, at_seg, field_of,
    spec_components, spec_decode_shape, spec_decode_shape2d, spec_decode_untagged,
    spec_difference_fields, spec_group_fields, spec_members, spec_sketch_fields,
    spec_sweep_fields, spec_transform_fields, with_seg,
};
use crate::shape::{ShapeModel, is_2d_model, members_wf, wf_model};
use crate::value::ValueModel;

verus! {

/// The canonical discriminated encoding of a shape model: the value a
/// script would return to describe it.
pub open spec fn encode_shape(m: ShapeModel) -> ValueModel
    decreases m,
{
    match m {
        ShapeModel::Circle { radius } => ValueModel::Obj(
            seq![
                ("type"@, ValueModel::Text("Circle"@)),
                ("radius"@, ValueModel::Num(radius)),
            ],
        ),
        ShapeModel::Sketch { radius } => ValueModel::Obj(
            seq![
                ("type"@, ValueModel::Text("Sketch"@)),
                (
                    "chain"@,
                    ValueModel::Obj(
                        seq![
                            ("type"@, ValueModel::Text("Circle"@)),
                            ("radius"@, ValueModel::Num(radius)),
                        ],
                    ),
                ),
            ],
        ),
        ShapeModel::Difference2d { minuend, subtrahend } => ValueModel::Obj(
            seq![
                ("type"@, ValueModel::Text("Difference2d"@)),
                (
                    "shapes"@,
                    ValueModel::Arr(seq![encode_shape(*minuend), encode_shape(*subtrahend)]),
                ),
            ],
        ),
        ShapeModel::Sweep { shape, path } => ValueModel::Obj(
            seq![
                ("type"@, ValueModel::Text("Sweep"@)),
                ("shape"@, encode_shape(*shape)),
                (
                    "path"@,
                    ValueModel::Arr(
                        seq![
                            ValueModel::Num(path.0),
                            ValueModel::Num(path.1),
                            ValueModel::Num(path.2),
                        ],
                    ),
                ),
            ],
        ),
        ShapeModel::Transform { shape, matrix } => ValueModel::Obj(
            seq![
                ("type"@, ValueModel::Text("Transform"@)),
                ("shape"@, encode_shape(*shape)),
                ("matrix"@, ValueModel::Arr(matrix.map_values(|n: int| ValueModel::Num(n)))),
            ],
        ),
        ShapeModel::Group { members } => ValueModel::Obj(
            seq![
                ("type"@, ValueModel::Text("Group"@)),
                ("members"@, ValueModel::Arr(encode_members(members))),
            ],
        ),
    }
}

/// Element-wise encoding of a group's members.
pub open spec fn encode_members(ms: Seq<ShapeModel>) -> Seq<ValueModel>
    decreases ms,
{
    if ms.len() == 0 {
        Seq::empty()
    } else {
        encode_members(ms.drop_last()).push(encode_shape(ms.last()))
    }
}

/// How much recursion budget decoding a shape's encoding takes: one
/// level per nested shape-valued object.
pub open spec fn height_model(m: ShapeModel) -> nat
    decreases m,
{
    match m {
        ShapeModel::Circle { .. } => 1,
        ShapeModel::Sketch { .. } => 2,
        ShapeModel::Difference2d { minuend, subtrahend } => 1 + if height_model(*minuend)
            >= height_model(*subtrahend) {
            height_model(*minuend)
        } else {
            height_model(*subtrahend)
        },
        ShapeModel::Sweep { shape, .. } => 1 + height_model(*shape),
        ShapeModel::Transform { shape, .. } => 1 + height_model(*shape),
        ShapeModel::Group { members } => 1 + members_height(members),
    }
}

/// The tallest member of a group; zero for an empty group.
pub open spec fn members_height(ms: Seq<ShapeModel>) -> nat
    decreases ms,
{
    if ms.len() == 0 {
        0
    } else if members_height(ms.drop_last()) >= height_model(ms.last()) {
        members_height(ms.drop_last())
    } else {
        height_model(ms.last())
    }
}

/// The field keys and discriminator strings the decoder distinguishes
/// are pairwise distinct where it compares them.
proof fn lemma_literals()
    ensures
        "type"@ != "radius"@,
        "type"@ != "chain"@,
        "type"@ != "shapes"@,
        "type"@ != "shape"@,
        "type"@ != "path"@,
        "type"@ != "matrix"@,
        "type"@ != "members"@,
        "shape"@ != "path"@,
        "shape"@ != "matrix"@,
        "Sketch"@ != "Circle"@,
        "Difference2d"@ != "Circle"@,
        "Difference2d"@ != "Sketch"@,
        "Sweep"@ != "Circle"@,
        "Sweep"@ != "Sketch"@,
        "Sweep"@ != "Difference2d"@,
        "Transform"@ != "Circle"@,
        "Transform"@ != "Sketch"@,
        "Transform"@ != "Difference2d"@,
        "Transform"@ != "Sweep"@,
        "Group"@ != "Circle"@,
        "Group"@ != "Sketch"@,
        "Group"@ != "Difference2d"@,
        "Group"@ != "Sweep"@,
        "Group"@ != "Transform"@,
{
    reveal_strlit("type");
    reveal_strlit("radius");
    reveal_strlit("chain");
    reveal_strlit("shapes");
    reveal_strlit("shape");
    reveal_strlit("path");
    reveal_strlit("matrix");
    reveal_strlit("members");
    reveal_strlit("Circle");
    reveal_strlit("Sketch");
    reveal_strlit("Difference2d");
    reveal_strlit("Sweep");
    reveal_strlit("Transform");
    reveal_strlit("Group");
    assert("type"@.len() == 4 && "radius"@.len() == 6 && "chain"@.len() == 5 && "shapes"@.len()
        == 6 && "shape"@.len() == 5 && "path"@.len() == 4 && "matrix"@.len() == 6
        && "members"@.len() == 7);
    assert("Circle"@.len() == 6 && "Sketch"@.len() == 6 && "Difference2d"@.len() == 12
        && "Sweep"@.len() == 5 && "Transform"@.len() == 9 && "Group"@.len() == 5);
    assert("type"@[0] == 't' && "path"@[0] == 'p');
    assert("Sketch"@[0] == 'S' && "Circle"@[0] == 'C');
    assert("Group"@[0] == 'G' && "Sweep"@[0] == 'S' && "Transform"@[0] == 'T');
}

/// Looking a key up in a two-field object.
proof fn lemma_field_of_2(
    k0: Seq<char>,
    v0: ValueModel,
    k1: Seq<char>,
    v1: ValueModel,
    name: Seq<char>,
)
    ensures
        field_of(seq![(k0, v0), (k1, v1)], name) == (if name == k0 {
            Option::Some(v0)
        } else if name == k1 {
            Option::Some(v1)
        } else {
            Option::<ValueModel>::None
        }),
{
    reveal_with_fuel(field_of, 4);
    let s = seq![(k0, v0), (k1, v1)];
    assert(s.drop_first() =~= seq![(k1, v1)]);
    assert(s.drop_first().drop_first() =~= Seq::<(Seq<char>, ValueModel)>::empty());
}

/// Looking a key up in a three-field object.
proof fn lemma_field_of_3(
    k0: Seq<char>,
    v0: ValueModel,
    k1: Seq<char>,
    v1: ValueModel,
    k2: Seq<char>,
    v2: ValueModel,
    name: Seq<char>,
)
    ensures
        field_of(seq![(k0, v0), (k1, v1), (k2, v2)], name) == (if name == k0 {
            Option::Some(v0)
        } else if name == k1 {
            Option::Some(v1)
        } else if name == k2 {
            Option::Some(v2)
        } else {
            Option::<ValueModel>::None
        }),
{
    reveal_with_fuel(field_of, 2);
    let s = seq![(k0, v0), (k1, v1), (k2, v2)];
    assert(s.drop_first() =~= seq![(k1, v1), (k2, v2)]);
    lemma_field_of_2(k1, v1, k2, v2, name);
}

/// A run of numeric items decodes to exactly its numbers.
proof fn lemma_components_nums(items: Seq<ValueModel>)
    requires
        forall|i: int| 0 <= i < items.len() ==> items[i] is Num,
    ensures
        spec_components(items) matches Result::Ok(cs) && cs.len() == items.len() && (forall|
            i: int,
        |
            0 <= i < items.len() ==> cs[i] == items[i]->Num_0),
    decreases items.len(),
{
    if items.len() > 0 {
        lemma_components_nums(items.drop_last());
    }
}

/// Round trip, full shapes: decoding the canonical encoding of any
/// well-formed shape that fits the recursion budget yields exactly that
/// shape — the decoder inverts construction, losing and changing
/// nothing.
pub proof fn lemma_roundtrip_shape(m: ShapeModel, depth: nat)
    requires
        wf_model(m),
        height_model(m) <= depth,
    ensures
        spec_decode_shape(encode_shape(m), depth) == Result::Ok::<ShapeModel, DecodeErrorModel>(
            m,
        ),
    decreases m,
{
    lemma_literals();
    let nested = (depth - 1) as nat;
    match m {
        ShapeModel::Circle { radius } => {
            lemma_field_of_2(
                "type"@,
                ValueModel::Text("Circle"@),
                "radius"@,
                ValueModel::Num(radius),
                "radius"@,
            );
        },
        ShapeModel::Sketch { radius } => {
            lemma_roundtrip_sketch(radius, nested);
        },
        ShapeModel::Difference2d { minuend, subtrahend } => {
            lemma_roundtrip_shape2d(*minuend, nested);
            lemma_roundtrip_shape2d(*subtrahend, nested);
            lemma_roundtrip_difference(*minuend, *subtrahend, nested);
        },
        ShapeModel::Sweep { shape, path } => {
            lemma_roundtrip_shape2d(*shape, nested);
            lemma_roundtrip_sweep(*shape, path, nested);
        },
        ShapeModel::Transform { shape, matrix } => {
            lemma_field_of_3(
                "type"@,
                ValueModel::Text("Transform"@),
                "shape"@,
                encode_shape(*shape),
                "matrix"@,
                ValueModel::Arr(matrix.map_values(|n: int| ValueModel::Num(n))),
                "shape"@,
            );
            lemma_field_of_3(
                "type"@,
                ValueModel::Text("Transform"@),
                "shape"@,
                encode_shape(*shape),
                "matrix"@,
                ValueModel::Arr(matrix.map_values(|n: int| ValueModel::Num(n))),
                "matrix"@,
            );
            lemma_roundtrip_shape(*shape, nested);
            let items = matrix.map_values(|n: int| ValueModel::Num(n));
            lemma_components_nums(items);
            match spec_components(items) {
                Result::Ok(cs) => {
                    assert(cs =~= matrix);
                },
                Result::Err(_) => {},
            }
        },
        ShapeModel::Group { members } => {
            lemma_field_of_2(
                "type"@,
                ValueModel::Text("Group"@),
                "members"@,
                ValueModel::Arr(encode_members(members)),
                "members"@,
            );
            lemma_roundtrip_members(members, nested);
        },
    }
}

/// Round trip, planar shapes: the planar decoder inverts the canonical
/// encoding of any well-formed planar shape within budget.
pub proof fn lemma_roundtrip_shape2d(m: ShapeModel, depth: nat)
    requires
        wf_model(m),
        is_2d_model(m),
        height_model(m) <= depth,
    ensures
        spec_decode_shape2d(encode_shape(m), depth) == Result::Ok::<
            ShapeModel,
            DecodeErrorModel,
        >(m),
    decreases m,
{
    lemma_literals();
    let nested = (depth - 1) as nat;
    match m {
        ShapeModel::Sketch { radius } => {
            lemma_roundtrip_sketch(radius, nested);
        },
        ShapeModel::Difference2d { minuend, subtrahend } => {
            lemma_roundtrip_shape2d(*minuend, nested);
            lemma_roundtrip_shape2d(*subtrahend, nested);
            lemma_roundtrip_difference(*minuend, *subtrahend, nested);
        },
        _ => {},
    }
}

/// Round trip for a sketch's fields.
proof fn lemma_roundtrip_sketch(radius: int, nested: nat)
    requires
        radius > 0,
        nested >= 1,
    ensures
        spec_sketch_fields(
            seq![
                ("type"@, ValueModel::Text("Sketch"@)),
                (
                    "chain"@,
                    ValueModel::Obj(
                        seq![
                            ("type"@, ValueModel::Text("Circle"@)),
                            ("radius"@, ValueModel::Num(radius)),
                        ],
                    ),
                ),
            ],
            nested,
        ) == Result::Ok::<ShapeModel, DecodeErrorModel>(ShapeModel::Sketch { radius }),
{
    lemma_literals();
    let chain_fields = seq![
        ("type"@, ValueModel::Text("Circle"@)),
        ("radius"@, ValueModel::Num(radius)),
    ];
    lemma_field_of_2(
        "type"@,
        ValueModel::Text("Sketch"@),
        "chain"@,
        ValueModel::Obj(chain_fields),
        "chain"@,
    );
    lemma_field_of_2("type"@, ValueModel::Text("Circle"@), "radius"@, ValueModel::Num(radius),
        "radius"@);
}

/// Round trip for a difference's fields.
proof fn lemma_roundtrip_difference(a: ShapeModel, b: ShapeModel, nested: nat)
    requires
        wf_model(a),
        wf_model(b),
        is_2d_model(a),
        is_2d_model(b),
        spec_decode_shape2d(encode_shape(a), nested) == Result::Ok::<
            ShapeModel,
            DecodeErrorModel,
        >(a),
        spec_decode_shape2d(encode_shape(b), nested) == Result::Ok::<
            ShapeModel,
            DecodeErrorModel,
        >(b),
    ensures
        spec_difference_fields(
            seq![
                ("type"@, ValueModel::Text("Difference2d"@)),
                ("shapes"@, ValueModel::Arr(seq![encode_shape(a), encode_shape(b)])),
            ],
            nested,
        ) == Result::Ok::<ShapeModel, DecodeErrorModel>(
            ShapeModel::Difference2d { minuend: Box::new(a), subtrahend: Box::new(b) },
        ),
{
    lemma_literals();
    lemma_field_of_2(
        "type"@,
        ValueModel::Text("Difference2d"@),
        "shapes"@,
        ValueModel::Arr(seq![encode_shape(a), encode_shape(b)]),
        "shapes"@,
    );
}

/// Round trip for a sweep's fields.
proof fn lemma_roundtrip_sweep(shape: ShapeModel, path: (int, int, int), nested: nat)
    requires
        spec_decode_shape2d(encode_shape(shape), nested) == Result::Ok::<
            ShapeModel,
            DecodeErrorModel,
        >(shape),
    ensures
        spec_sweep_fields(
            seq![
                ("type"@, ValueModel::Text("Sweep"@)),
                ("shape"@, encode_shape(shape)),
                (
                    "path"@,
                    ValueModel::Arr(
                        seq![
                            ValueModel::Num(path.0),
                            ValueModel::Num(path.1),
                            ValueModel::Num(path.2),
                        ],
                    ),
                ),
            ],
            nested,
        ) == Result::Ok::<ShapeModel, DecodeErrorModel>(
            ShapeModel::Sweep { shape: Box::new(shape), path },
        ),
{
    lemma_literals();
    let items = seq![
        ValueModel::Num(path.0),
        ValueModel::Num(path.1),
        ValueModel::Num(path.2),
    ];
    lemma_field_of_3(
        "type"@,
        ValueModel::Text("Sweep"@),
        "shape"@,
        encode_shape(shape),
        "path"@,
        ValueModel::Arr(items),
        "shape"@,
    );
    lemma_field_of_3(
        "type"@,
        ValueModel::Text("Sweep"@),
        "shape"@,
        encode_shape(shape),
        "path"@,
        ValueModel::Arr(items),
        "path"@,
    );
    assert(items[0] == ValueModel::Num(path.0));
    assert(items[1] == ValueModel::Num(path.1));
    assert(items[2] == ValueModel::Num(path.2));
    lemma_components_nums(items);
    match spec_components(items) {
        Result::Ok(cs) => {
            assert(cs[0] == path.0 && cs[1] == path.1 && cs[2] == path.2);
        },
        Result::Err(_) => {},
    }
}

/// Round trip for a group's members.
proof fn lemma_roundtrip_members(ms: Seq<ShapeModel>, nested: nat)
    requires
        members_wf(ms),
        members_height(ms) <= nested,
    ensures
        spec_members(encode_members(ms), nested) == Result::Ok::<
            Seq<ShapeModel>,
            DecodeErrorModel,
        >(ms),
    decreases ms,
{
    if ms.len() == 0 {
        assert(ms =~= Seq::<ShapeModel>::empty());
    } else {
        let ems = encode_members(ms);
        assert(ems.drop_last() =~= encode_members(ms.drop_last()));
        lemma_roundtrip_members(ms.drop_last(), nested);
        lemma_roundtrip_shape(ms.last(), nested);
        assert(ms.drop_last().push(ms.last()) =~= ms);
    }
}

/// Depth bound, full shapes: the canonical encoding of a well-formed
/// shape too tall for the recursion budget is rejected with a depth
/// error — never by exhausting the call stack, never with a mangled
/// result.
pub proof fn lemma_depth_shape(m: ShapeModel, depth: nat)
    requires
        wf_model(m),
        height_model(m) > depth,
    ensures
        spec_decode_shape(encode_shape(m), depth) matches Result::Err(e) && e.kind
            == DecodeErrorKind::DepthExceeded,
    decreases m,
{
    lemma_literals();
    if depth == 0 {
    } else {
        let nested = (depth - 1) as nat;
        match m {
            ShapeModel::Circle { .. } => {},
            ShapeModel::Sketch { radius } => {
                lemma_field_of_2(
                    "type"@,
                    ValueModel::Text("Sketch"@),
                    "chain"@,
                    ValueModel::Obj(
                        seq![
                            ("type"@, ValueModel::Text("Circle"@)),
                            ("radius"@, ValueModel::Num(radius)),
                        ],
                    ),
                    "chain"@,
                );
            },
            ShapeModel::Difference2d { minuend, subtrahend } => {
                lemma_field_of_2(
                    "type"@,
                    ValueModel::Text("Difference2d"@),
                    "shapes"@,
                    ValueModel::Arr(seq![encode_shape(*minuend), encode_shape(*subtrahend)]),
                    "shapes"@,
                );
                if height_model(*minuend) > nested {
                    lemma_depth_shape2d(*minuend, nested);
                } else {
                    lemma_roundtrip_shape2d(*minuend, nested);
                    lemma_depth_shape2d(*subtrahend, nested);
                }
            },
            ShapeModel::Sweep { shape, path } => {
                lemma_field_of_3(
                    "type"@,
                    ValueModel::Text("Sweep"@),
                    "shape"@,
                    encode_shape(*shape),
                    "path"@,
                    ValueModel::Arr(
                        seq![
                            ValueModel::Num(path.0),
                            ValueModel::Num(path.1),
                            ValueModel::Num(path.2),
                        ],
                    ),
                    "shape"@,
                );
                lemma_depth_shape2d(*shape, nested);
            },
            ShapeModel::Transform { shape, matrix } => {
                lemma_field_of_3(
                    "type"@,
                    ValueModel::Text("Transform"@),
                    "shape"@,
                    encode_shape(*shape),
                    "matrix"@,
                    ValueModel::Arr(matrix.map_values(|n: int| ValueModel::Num(n))),
                    "shape"@,
                );
                lemma_depth_shape(*shape, nested);
            },
            ShapeModel::Group { members } => {
                lemma_field_of_2(
                    "type"@,
                    ValueModel::Text("Group"@),
                    "members"@,
                    ValueModel::Arr(encode_members(members)),
                    "members"@,
                );
                lemma_depth_members(members, nested);
            },
        }
    }
}

/// Depth bound, planar shapes.
pub proof fn lemma_depth_shape2d(m: ShapeModel, depth: nat)
    requires
        wf_model(m),
        is_2d_model(m),
        height_model(m) > depth,
    ensures
        spec_decode_shape2d(encode_shape(m), depth) matches Result::Err(e) && e.kind
            == DecodeErrorKind::DepthExceeded,
    decreases m,
{
    lemma_literals();
    if depth == 0 {
    } else {
        let nested = (depth - 1) as nat;
        match m {
            ShapeModel::Sketch { radius } => {
                lemma_field_of_2(
                    "type"@,
                    ValueModel::Text("Sketch"@),
                    "chain"@,
                    ValueModel::Obj(
                        seq![
                            ("type"@, ValueModel::Text("Circle"@)),
                            ("radius"@, ValueModel::Num(radius)),
                        ],
                    ),
                    "chain"@,
                );
            },
            ShapeModel::Difference2d { minuend, subtrahend } => {
                lemma_field_of_2(
                    "type"@,
                    ValueModel::Text("Difference2d"@),
                    "shapes"@,
                    ValueModel::Arr(seq![encode_shape(*minuend), encode_shape(*subtrahend)]),
                    "shapes"@,
                );
                if height_model(*minuend) > nested {
                    lemma_depth_shape2d(*minuend, nested);
                } else {
                    lemma_roundtrip_shape2d(*minuend, nested);
                    lemma_depth_shape2d(*subtrahend, nested);
                }
            },
            _ => {},
        }
    }
}

/// Depth bound for a group's members: some member is too tall, and the
/// first such member settles the run with a depth error.
proof fn lemma_depth_members(ms: Seq<ShapeModel>, nested: nat)
    requires
        members_wf(ms),
        members_height(ms) > nested,
    ensures
        spec_members(encode_members(ms), nested) matches Result::Err(e) && e.kind
            == DecodeErrorKind::DepthExceeded,
    decreases ms,
{
    let ems = encode_members(ms);
    assert(ems.drop_last() =~= encode_members(ms.drop_last()));
    if members_height(ms.drop_last()) > nested {
        lemma_depth_members(ms.drop_last(), nested);
    } else {
        lemma_roundtrip_members(ms.drop_last(), nested);
        lemma_depth_shape(ms.last(), nested);
    }
}

/// Arity: a discriminated difference whose `shapes` array has any
/// length but two is rejected with an arity error at
/// `Difference2d.shapes`, by both the full and the planar decoder —
/// never truncated, never padded.
pub proof fn lemma_difference_arity_rejected(
    fields: Seq<(Seq<char>, ValueModel)>,
    items: Seq<ValueModel>,
    depth: nat,
)
    requires
        depth > 0,
        field_of(fields, "type"@) == Option::Some(ValueModel::Text("Difference2d"@)),
        field_of(fields, "shapes"@) == Option::Some(ValueModel::Arr(items)),
        items.len() != 2,
    ensures
        spec_decode_shape(ValueModel::Obj(fields), depth) == Result::Err::<
            ShapeModel,
            DecodeErrorModel,
        >(
            with_seg(
                at_seg(DecodeErrorKind::Arity, Seg::Field(FieldName::Shapes)),
                Seg::Variant(VariantName::Difference2d),
            ),
        ),
        spec_decode_shape2d(ValueModel::Obj(fields), depth) == Result::Err::<
            ShapeModel,
            DecodeErrorModel,
        >(
            with_seg(
                at_seg(DecodeErrorKind::Arity, Seg::Field(FieldName::Shapes)),
                Seg::Variant(VariantName::Difference2d),
            ),
        ),
{
    lemma_literals();
}

/// Rejection: a discriminator string naming no known variant is a hard
/// unknown-variant error; nothing falls back silently.
pub proof fn lemma_unknown_variant_rejected(
    fields: Seq<(Seq<char>, ValueModel)>,
    tag: Seq<char>,
    depth: nat,
)
    requires
        depth > 0,
        field_of(fields, "type"@) == Option::Some(ValueModel::Text(tag)),
        tag != "Circle"@,
        tag != "Sketch"@,
        tag != "Difference2d"@,
        tag != "Sweep"@,
        tag != "Transform"@,
        tag != "Group"@,
    ensures
        spec_decode_shape(ValueModel::Obj(fields), depth) == Result::Err::<
            ShapeModel,
            DecodeErrorModel,
        >(at_seg(DecodeErrorKind::UnknownVariant, Seg::Field(FieldName::TypeTag))),
{
}

/// Trial-decode priority: without a discriminator, the result is the
/// first success among the per-variant decoders in the order group,
/// difference, sketch, sweep, transform — reproducibly — and only when
/// all five fail does the decode fail, with a no-variant-matched error.
pub proof fn lemma_untagged_priority(fields: Seq<(Seq<char>, ValueModel)>, depth: nat)
    requires
        depth > 0,
    ensures
        ({
            let nested = (depth - 1) as nat;
            let r = spec_decode_untagged(ValueModel::Obj(fields), depth);
            &&& (spec_group_fields(fields, nested) is Ok ==> r == spec_group_fields(
                fields,
                nested,
            ))
            &&& (spec_group_fields(fields, nested) is Err && spec_difference_fields(
                fields,
                nested,
            ) is Ok ==> r == spec_difference_fields(fields, nested))
            &&& (spec_group_fields(fields, nested) is Err && spec_difference_fields(
                fields,
                nested,
            ) is Err && spec_sketch_fields(fields, nested) is Ok ==> r == spec_sketch_fields(
                fields,
                nested,
            ))
            &&& (spec_group_fields(fields, nested) is Err && spec_difference_fields(
                fields,
                nested,
            ) is Err && spec_sketch_fields(fields, nested) is Err && spec_sweep_fields(
                fields,
                nested,
            ) is Ok ==> r == spec_sweep_fields(fields, nested))
            &&& (spec_group_fields(fields, nested) is Err && spec_difference_fields(
                fields,
                nested,
            ) is Err && spec_sketch_fields(fields, nested) is Err && spec_sweep_fields(
                fields,
                nested,
            ) is Err && spec_transform_fields(fields, nested) is Ok ==> r
                == spec_transform_fields(fields, nested))
            &&& (spec_group_fields(fields, nested) is Err && spec_difference_fields(
                fields,
                nested,
            ) is Err && spec_sketch_fields(fields, nested) is Err && spec_sweep_fields(
                fields,
                nested,
            ) is Err && spec_transform_fields(fields, nested) is Err ==> r == Result::Err::<
                ShapeModel,
                DecodeErrorModel,
            >(at_root(DecodeErrorKind::NoVariantMatched)))
        }),
{
}

/// Equivalence: the difference of two sketches that the construction
/// bridge assembles — the model its operations push for positive radii
/// — is exactly what decoding the structurally equivalent described
/// value yields. Construction and decoding meet in the same shape
/// graph.
pub proof fn lemma_bridge_decode_equivalence(a: int, b: int, depth: nat)
    requires
        a > 0,
        b > 0,
        depth >= 3,
    ensures
        ({
            let built = ShapeModel::Difference2d {
                minuend: Box::new(ShapeModel::Sketch { radius: a }),
                subtrahend: Box::new(ShapeModel::Sketch { radius: b }),
            };
            spec_decode_shape(encode_shape(built), depth) == Result::Ok::<
                ShapeModel,
                DecodeErrorModel,
            >(built)
        }),
{
    let built = ShapeModel::Difference2d {
        minuend: Box::new(ShapeModel::Sketch { radius: a }),
        subtrahend: Box::new(ShapeModel::Sketch { radius: b }),
    };
    assert(height_model(ShapeModel::Sketch { radius: a }) == 2);
    assert(height_model(ShapeModel::Sketch { radius: b }) == 2);
    assert(wf_model(ShapeModel::Sketch { radius: a }));
    assert(wf_model(ShapeModel::Sketch { radius: b }));
    lemma_roundtrip_shape(built, depth);
}

/// Determinism: a decode pass returns a function of the decoded value
/// and budget alone, so two passes over the same value agree exactly.
pub proof fn lemma_decode_deterministic(v: ValueModel, w: ValueModel, depth: nat)
    requires
        v == w,
    ensures
        spec_decode_shape(v, depth) == spec_decode_shape(w, depth),
        spec_decode_untagged(v, depth) == spec_decode_untagged(w, depth),
{
}

} // verus!
