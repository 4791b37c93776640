//! The shape decoder: a defensive, schema-free reconstruction of a shape
//! tree from an untyped, self-describing value returned by a script.
//!
//! Given a value and an expected broad category (shape, planar shape, or
//! chain), the decoder reads a string `type` discriminator, dispatches to
//! a per-variant decoder, and recursively decodes nested shape-valued
//! fields depth-first. Every failure carries the field path that produced
//! it. Recursion is budgeted: a value nested deeper than the budget fails
//! with a depth error instead of exhausting the call stack.
//!
//! The spec functions in this module are the decoder's mathematics; each
//! executable function returns exactly what its spec function says.

use vstd::prelude::*;

use crate::shape::{
    Chain, Circle, Difference2d, Group, Shape, Shape2d, ShapeModel, Sketch, Sweep, Transform,
    Vec3, is_2d_model, members_model, members_wf, shape2d_model, shape_model, wf_model,
};
use crate::value::{Value, ValueModel, fields_model, items_model, lemma_fields_model_index,
    lemma_items_model_index, value_model};

verus! {

broadcast use vstd::std_specs::vec::group_vec_axioms;

/// A named field appearing in an error path.
#[derive(Debug, Clone, Copy, PartialEq, Eq)]
pub enum FieldName {
    /// The `type` discriminator.
    TypeTag,
    /// `radius` of a circle.
    Radius,
    /// `chain` of a sketch.
    Chain,
    /// `shapes` of a difference: the ordered operand pair.
    Shapes,
    /// `shape` of a sweep or transform.
    Shape,
    /// `path` of a sweep.
    Path,
    /// `matrix` of a transform.
    Matrix,
    /// `members` of a group.
    Members,
}

/// A variant context appearing in an error path.
#[derive(Debug, Clone, Copy, PartialEq, Eq)]
pub enum VariantName {
    Circle,
    Sketch,
    Difference2d,
    Sweep,
    Transform,
    Group,
}

/// One step of the path from the decoded root to the failing spot.
#[derive(Debug, Clone, Copy, PartialEq, Eq)]
pub enum Seg {
    /// Entered the named variant's decoder.
    Variant(VariantName),
    /// Read the named field.
    Field(FieldName),
    /// Indexed into an array.
    Index(usize),
}

/// What went wrong while decoding.
#[derive(Debug, Clone, Copy, PartialEq, Eq)]
pub enum DecodeErrorKind {
    /// A value had the wrong dynamic type for its spot.
    WrongType,
    /// A required field was absent.
    MissingField,
    /// A radius was zero or negative.
    NonPositive,
    /// The discriminator string named no known variant.
    UnknownVariant,
    /// A fixed-arity array had the wrong length.
    Arity,
    /// The recursion budget was exhausted.
    DepthExceeded,
    /// Trial decoding without a discriminator matched no variant.
    NoVariantMatched,
}

/// A decode failure: the kind of fault and the path to it, outermost
/// context first.
#[derive(Debug, Clone, PartialEq, Eq)]
pub struct DecodeError {
    pub kind: DecodeErrorKind,
    pub path: Vec<Seg>,
}

/// Spec-level model of a decode failure.
pub struct DecodeErrorModel {
    pub kind: DecodeErrorKind,
    pub path: Seq<Seg>,
}

/// The model of an executable decode failure.
pub open spec fn err_model(e: DecodeError) -> DecodeErrorModel {
    DecodeErrorModel { kind: e.kind, path: e.path@ }
}

/// An error located at the decoded value itself.
pub open spec fn at_root(kind: DecodeErrorKind) -> DecodeErrorModel {
    DecodeErrorModel { kind, path: Seq::empty() }
}

/// An error one step down from the decoded value.
pub open spec fn at_seg(kind: DecodeErrorKind, seg: Seg) -> DecodeErrorModel {
    DecodeErrorModel { kind, path: seq![seg] }
}

/// The same error, seen from one context further out.
pub open spec fn with_seg(e: DecodeErrorModel, seg: Seg) -> DecodeErrorModel {
    DecodeErrorModel { kind: e.kind, path: seq![seg] + e.path }
}

/// The value of the first field with the given key, if any.
pub open spec fn field_of(fields: Seq<(Seq<char>, ValueModel)>, name: Seq<char>) -> Option<
    ValueModel,
>
    decreases fields.len(),
{
    if fields.len() == 0 {
        Option::None
    } else if fields[0].0 == name {
        Option::Some(fields[0].1)
    } else {
        field_of(fields.drop_first(), name)
    }
}

/// What decoding a value as a full shape returns: the reconstructed
/// model on success, the located fault otherwise.
pub open spec fn spec_decode_shape(v: ValueModel, depth: nat) -> Result<
    ShapeModel,
    DecodeErrorModel,
>
    decreases depth, 0int, 0int,
{
    if depth == 0 {
        Result::Err(at_root(DecodeErrorKind::DepthExceeded))
    } else {
        match v {
            ValueModel::Obj(fields) => match field_of(fields, "type"@) {
                Option::None => Result::Err(
                    at_seg(DecodeErrorKind::MissingField, Seg::Field(FieldName::TypeTag)),
                ),
                Option::Some(tv) => match tv {
                    ValueModel::Text(tag) => spec_dispatch_shape(
                        tag,
                        fields,
                        (depth - 1) as nat,
                    ),
                    _ => Result::Err(
                        at_seg(DecodeErrorKind::WrongType, Seg::Field(FieldName::TypeTag)),
                    ),
                },
            },
            _ => Result::Err(at_root(DecodeErrorKind::WrongType)),
        }
    }
}

/// Dispatch on the discriminator of a full shape: every recognized
/// variant is admitted; anything else is an unknown variant.
pub open spec fn spec_dispatch_shape(
    tag: Seq<char>,
    fields: Seq<(Seq<char>, ValueModel)>,
    nested: nat,
) -> Result<ShapeModel, DecodeErrorModel>
    decreases nested, 4int, 0int,
{
    if tag == "Circle"@ {
        match spec_circle_fields(fields) {
            Result::Ok(radius) => Result::Ok(ShapeModel::Circle { radius }),
            Result::Err(e) => Result::Err(with_seg(e, Seg::Variant(VariantName::Circle))),
        }
    } else if tag == "Sketch"@ {
        in_variant(VariantName::Sketch, spec_sketch_fields(fields, nested))
    } else if tag == "Difference2d"@ {
        in_variant(VariantName::Difference2d, spec_difference_fields(fields, nested))
    } else if tag == "Sweep"@ {
        in_variant(VariantName::Sweep, spec_sweep_fields(fields, nested))
    } else if tag == "Transform"@ {
        in_variant(VariantName::Transform, spec_transform_fields(fields, nested))
    } else if tag == "Group"@ {
        in_variant(VariantName::Group, spec_group_fields(fields, nested))
    } else {
        Result::Err(at_seg(DecodeErrorKind::UnknownVariant, Seg::Field(FieldName::TypeTag)))
    }
}

/// What decoding a value as a planar shape returns: only the two planar
/// variants are admitted.
pub open spec fn spec_decode_shape2d(v: ValueModel, depth: nat) -> Result<
    ShapeModel,
    DecodeErrorModel,
>
    decreases depth, 0int, 0int,
{
    if depth == 0 {
        Result::Err(at_root(DecodeErrorKind::DepthExceeded))
    } else {
        match v {
            ValueModel::Obj(fields) => match field_of(fields, "type"@) {
                Option::None => Result::Err(
                    at_seg(DecodeErrorKind::MissingField, Seg::Field(FieldName::TypeTag)),
                ),
                Option::Some(tv) => match tv {
                    ValueModel::Text(tag) => if tag == "Sketch"@ {
                        in_variant(
                            VariantName::Sketch,
                            spec_sketch_fields(fields, (depth - 1) as nat),
                        )
                    } else if tag == "Difference2d"@ {
                        in_variant(
                            VariantName::Difference2d,
                            spec_difference_fields(fields, (depth - 1) as nat),
                        )
                    } else {
                        Result::Err(
                            at_seg(
                                DecodeErrorKind::UnknownVariant,
                                Seg::Field(FieldName::TypeTag),
                            ),
                        )
                    },
                    _ => Result::Err(
                        at_seg(DecodeErrorKind::WrongType, Seg::Field(FieldName::TypeTag)),
                    ),
                },
            },
            _ => Result::Err(at_root(DecodeErrorKind::WrongType)),
        }
    }
}

/// A successful per-variant decode passes through; a failure gains the
/// variant's context.
pub open spec fn in_variant(
    vn: VariantName,
    r: Result<ShapeModel, DecodeErrorModel>,
) -> Result<ShapeModel, DecodeErrorModel> {
    match r {
        Result::Ok(m) => Result::Ok(m),
        Result::Err(e) => Result::Err(with_seg(e, Seg::Variant(vn))),
    }
}

/// The radius of a circle object: a number, strictly positive.
pub open spec fn spec_circle_fields(fields: Seq<(Seq<char>, ValueModel)>) -> Result<
    int,
    DecodeErrorModel,
> {
    match field_of(fields, "radius"@) {
        Option::None => Result::Err(
            at_seg(DecodeErrorKind::MissingField, Seg::Field(FieldName::Radius)),
        ),
        Option::Some(rv) => match rv {
            ValueModel::Num(n) => if n > 0 {
                Result::Ok(n)
            } else {
                Result::Err(at_seg(DecodeErrorKind::NonPositive, Seg::Field(FieldName::Radius)))
            },
            _ => Result::Err(at_seg(DecodeErrorKind::WrongType, Seg::Field(FieldName::Radius))),
        },
    }
}

/// The chain of a sketch: an object whose discriminator names a
/// recognized closed-curve kind; currently only a circle.
pub open spec fn spec_decode_chain(v: ValueModel, depth: nat) -> Result<int, DecodeErrorModel>
    decreases depth, 0int, 0int,
{
    if depth == 0 {
        Result::Err(at_root(DecodeErrorKind::DepthExceeded))
    } else {
        match v {
            ValueModel::Obj(fields) => match field_of(fields, "type"@) {
                Option::None => Result::Err(
                    at_seg(DecodeErrorKind::MissingField, Seg::Field(FieldName::TypeTag)),
                ),
                Option::Some(tv) => match tv {
                    ValueModel::Text(tag) => if tag == "Circle"@ {
                        match spec_circle_fields(fields) {
                            Result::Ok(radius) => Result::Ok(radius),
                            Result::Err(e) => Result::Err(
                                with_seg(e, Seg::Variant(VariantName::Circle)),
                            ),
                        }
                    } else {
                        Result::Err(
                            at_seg(
                                DecodeErrorKind::UnknownVariant,
                                Seg::Field(FieldName::TypeTag),
                            ),
                        )
                    },
                    _ => Result::Err(
                        at_seg(DecodeErrorKind::WrongType, Seg::Field(FieldName::TypeTag)),
                    ),
                },
            },
            _ => Result::Err(at_root(DecodeErrorKind::WrongType)),
        }
    }
}

/// A sketch object: its `chain` field decoded as a closed curve.
pub open spec fn spec_sketch_fields(fields: Seq<(Seq<char>, ValueModel)>, nested: nat) -> Result<
    ShapeModel,
    DecodeErrorModel,
>
    decreases nested, 3int, 0int,
{
    match field_of(fields, "chain"@) {
        Option::None => Result::Err(
            at_seg(DecodeErrorKind::MissingField, Seg::Field(FieldName::Chain)),
        ),
        Option::Some(cv) => match spec_decode_chain(cv, nested) {
            Result::Ok(radius) => Result::Ok(ShapeModel::Sketch { radius }),
            Result::Err(e) => Result::Err(with_seg(e, Seg::Field(FieldName::Chain))),
        },
    }
}

/// A difference object: `shapes` must be an array of exactly two planar
/// operands, decoded in order; any other length is an arity fault, never
/// truncated or padded.
pub open spec fn spec_difference_fields(
    fields: Seq<(Seq<char>, ValueModel)>,
    nested: nat,
) -> Result<ShapeModel, DecodeErrorModel>
    decreases nested, 3int, 0int,
{
    match field_of(fields, "shapes"@) {
        Option::None => Result::Err(
            at_seg(DecodeErrorKind::MissingField, Seg::Field(FieldName::Shapes)),
        ),
        Option::Some(sv) => match sv {
            ValueModel::Arr(items) => if items.len() != 2 {
                Result::Err(at_seg(DecodeErrorKind::Arity, Seg::Field(FieldName::Shapes)))
            } else {
                match spec_decode_shape2d(items[0], nested) {
                    Result::Err(e) => Result::Err(
                        with_seg(with_seg(e, Seg::Index(0)), Seg::Field(FieldName::Shapes)),
                    ),
                    Result::Ok(minuend) => match spec_decode_shape2d(items[1], nested) {
                        Result::Err(e) => Result::Err(
                            with_seg(with_seg(e, Seg::Index(1)), Seg::Field(FieldName::Shapes)),
                        ),
                        Result::Ok(subtrahend) => Result::Ok(
                            ShapeModel::Difference2d {
                                minuend: Box::new(minuend),
                                subtrahend: Box::new(subtrahend),
                            },
                        ),
                    },
                }
            },
            _ => Result::Err(at_seg(DecodeErrorKind::WrongType, Seg::Field(FieldName::Shapes))),
        },
    }
}

/// A sweep object: a planar `shape` and a `path` of exactly three
/// numeric components. Nothing demands a non-zero path: a zero vector is
/// accepted and passed through.
pub open spec fn spec_sweep_fields(fields: Seq<(Seq<char>, ValueModel)>, nested: nat) -> Result<
    ShapeModel,
    DecodeErrorModel,
>
    decreases nested, 3int, 0int,
{
    match field_of(fields, "shape"@) {
        Option::None => Result::Err(
            at_seg(DecodeErrorKind::MissingField, Seg::Field(FieldName::Shape)),
        ),
        Option::Some(sv) => match spec_decode_shape2d(sv, nested) {
            Result::Err(e) => Result::Err(with_seg(e, Seg::Field(FieldName::Shape))),
            Result::Ok(shape) => match field_of(fields, "path"@) {
                Option::None => Result::Err(
                    at_seg(DecodeErrorKind::MissingField, Seg::Field(FieldName::Path)),
                ),
                Option::Some(pv) => match pv {
                    ValueModel::Arr(items) => if items.len() != 3 {
                        Result::Err(at_seg(DecodeErrorKind::Arity, Seg::Field(FieldName::Path)))
                    } else {
                        match spec_components(items) {
                            Result::Err(e) => Result::Err(
                                with_seg(e, Seg::Field(FieldName::Path)),
                            ),
                            Result::Ok(c) => Result::Ok(
                                ShapeModel::Sweep {
                                    shape: Box::new(shape),
                                    path: (c[0], c[1], c[2]),
                                },
                            ),
                        }
                    },
                    _ => Result::Err(
                        at_seg(DecodeErrorKind::WrongType, Seg::Field(FieldName::Path)),
                    ),
                },
            },
        },
    }
}

/// A transform object: a `shape` of any kind and a `matrix` of exactly
/// sixteen numeric entries.
pub open spec fn spec_transform_fields(
    fields: Seq<(Seq<char>, ValueModel)>,
    nested: nat,
) -> Result<ShapeModel, DecodeErrorModel>
    decreases nested, 3int, 0int,
{
    match field_of(fields, "shape"@) {
        Option::None => Result::Err(
            at_seg(DecodeErrorKind::MissingField, Seg::Field(FieldName::Shape)),
        ),
        Option::Some(sv) => match spec_decode_shape(sv, nested) {
            Result::Err(e) => Result::Err(with_seg(e, Seg::Field(FieldName::Shape))),
            Result::Ok(shape) => match field_of(fields, "matrix"@) {
                Option::None => Result::Err(
                    at_seg(DecodeErrorKind::MissingField, Seg::Field(FieldName::Matrix)),
                ),
                Option::Some(mv) => match mv {
                    ValueModel::Arr(items) => if items.len() != 16 {
                        Result::Err(at_seg(DecodeErrorKind::Arity, Seg::Field(FieldName::Matrix)))
                    } else {
                        match spec_components(items) {
                            Result::Err(e) => Result::Err(
                                with_seg(e, Seg::Field(FieldName::Matrix)),
                            ),
                            Result::Ok(c) => Result::Ok(
                                ShapeModel::Transform { shape: Box::new(shape), matrix: c },
                            ),
                        }
                    },
                    _ => Result::Err(
                        at_seg(DecodeErrorKind::WrongType, Seg::Field(FieldName::Matrix)),
                    ),
                },
            },
        },
    }
}

/// A group object: `members` is an array of shapes of any kinds, decoded
/// in order; an empty array is legal.
pub open spec fn spec_group_fields(fields: Seq<(Seq<char>, ValueModel)>, nested: nat) -> Result<
    ShapeModel,
    DecodeErrorModel,
>
    decreases nested, 3int, 0int,
{
    match field_of(fields, "members"@) {
        Option::None => Result::Err(
            at_seg(DecodeErrorKind::MissingField, Seg::Field(FieldName::Members)),
        ),
        Option::Some(mv) => match mv {
            ValueModel::Arr(items) => match spec_members(items, nested) {
                Result::Err(e) => Result::Err(with_seg(e, Seg::Field(FieldName::Members))),
                Result::Ok(members) => Result::Ok(ShapeModel::Group { members }),
            },
            _ => Result::Err(at_seg(DecodeErrorKind::WrongType, Seg::Field(FieldName::Members))),
        },
    }
}

/// The members of a group, decoded left to right; the first failure
/// wins, tagged with its index.
pub open spec fn spec_members(items: Seq<ValueModel>, nested: nat) -> Result<
    Seq<ShapeModel>,
    DecodeErrorModel,
>
    decreases nested, 2int, items.len(),
{
    if items.len() == 0 {
        Result::Ok(Seq::empty())
    } else {
        match spec_members(items.drop_last(), nested) {
            Result::Err(e) => Result::Err(e),
            Result::Ok(ms) => match spec_decode_shape(items.last(), nested) {
                Result::Err(e) => Result::Err(with_seg(e, Seg::Index((items.len() - 1) as usize))),
                Result::Ok(m) => Result::Ok(ms.push(m)),
            },
        }
    }
}

/// A run of numeric components, read left to right; the first
/// non-numeric entry wins, tagged with its index.
pub open spec fn spec_components(items: Seq<ValueModel>) -> Result<Seq<int>, DecodeErrorModel>
    decreases items.len(),
{
    if items.len() == 0 {
        Result::Ok(Seq::empty())
    } else {
        match spec_components(items.drop_last()) {
            Result::Err(e) => Result::Err(e),
            Result::Ok(cs) => match items.last() {
                ValueModel::Num(n) => Result::Ok(cs.push(n)),
                _ => Result::Err(
                    at_seg(DecodeErrorKind::WrongType, Seg::Index((items.len() - 1) as usize)),
                ),
            },
        }
    }
}

/// Trial decoding for values without a discriminator convention: the
/// per-variant decoders are attempted in a fixed priority order — group,
/// difference, sketch, sweep, transform — and the first full success is
/// taken; a value satisfying several variants always resolves to the
/// earliest.
pub open spec fn spec_decode_untagged(v: ValueModel, depth: nat) -> Result<
    ShapeModel,
    DecodeErrorModel,
>
    decreases depth, 0int, 0int,
{
    if depth == 0 {
        Result::Err(at_root(DecodeErrorKind::DepthExceeded))
    } else {
        match v {
            ValueModel::Obj(fields) => {
                let nested = (depth - 1) as nat;
                if spec_group_fields(fields, nested) is Ok {
                    spec_group_fields(fields, nested)
                } else if spec_difference_fields(fields, nested) is Ok {
                    spec_difference_fields(fields, nested)
                } else if spec_sketch_fields(fields, nested) is Ok {
                    spec_sketch_fields(fields, nested)
                } else if spec_sweep_fields(fields, nested) is Ok {
                    spec_sweep_fields(fields, nested)
                } else if spec_transform_fields(fields, nested) is Ok {
                    spec_transform_fields(fields, nested)
                } else {
                    Result::Err(at_root(DecodeErrorKind::NoVariantMatched))
                }
            },
            _ => Result::Err(at_root(DecodeErrorKind::WrongType)),
        }
    }
}

/// Whether a text value equals the given key.
fn text_is(s: &String, lit: &str) -> (r: bool)
    ensures
        r == (s@ == lit@),
{
    *s == lit.to_owned()
}

/// A failure at the decoded value itself.
fn root_err<T>(kind: DecodeErrorKind) -> (r: Result<T, DecodeError>)
    ensures
        r matches Result::Err(e) && err_model(e) == at_root(kind),
{
    Result::Err(DecodeError { kind, path: Vec::new() })
}

/// A failure one step down from the decoded value.
fn seg_err<T>(kind: DecodeErrorKind, seg: Seg) -> (r: Result<T, DecodeError>)
    ensures
        r matches Result::Err(e) && err_model(e) == at_seg(kind, seg),
{
    let mut path: Vec<Seg> = Vec::new();
    path.push(seg);
    proof {
        assert(path@ =~= seq![seg]);
    }
    Result::Err(DecodeError { kind, path })
}

/// The same failure, reported from one context further out.
fn wrap_err(e: DecodeError, seg: Seg) -> (w: DecodeError)
    ensures
        err_model(w) == with_seg(err_model(e), seg),
{
    let mut path = e.path;
    path.insert(0, seg);
    proof {
        assert(path@ =~= seq![seg] + e.path@);
    }
    DecodeError { kind: e.kind, path }
}

/// The first field with the given key, if any; agrees with `field_of`
/// on the object's model.
fn get_field<'a>(fields: &'a Vec<(String, Value)>, name: &str) -> (r: Option<&'a Value>)
    ensures
        match r {
            Option::Some(fv) => field_of(fields_model(fields@), name@) == Option::Some(
                value_model(*fv),
            ),
            Option::None => field_of(fields_model(fields@), name@) is None,
        },
{
    proof {
        lemma_fields_model_index(fields@);
        assert(fields_model(fields@).skip(0) =~= fields_model(fields@));
    }
    let ghost fm = fields_model(fields@);
    let mut i: usize = 0;
    while i < fields.len()
        invariant
            i <= fields.len(),
            fm == fields_model(fields@),
            fm.len() == fields.len(),
            forall|j: int| 0 <= j < fields@.len() ==> fm[j] == (fields@[j].0@, value_model(
                fields@[j].1,
            )),
            field_of(fm, name@) == field_of(fm.skip(i as int), name@),
        decreases fields.len() - i,
    {
        if text_is(&fields[i].0, name) {
            proof {
                assert(fm.skip(i as int)[0] == fm[i as int]);
            }
            return Option::Some(&fields[i].1);
        }
        proof {
            assert(fm.skip(i as int)[0] == fm[i as int]);
            assert(fm.skip(i as int).drop_first() =~= fm.skip(i + 1));
        }
        i = i + 1;
    }
    proof {
        assert(fm.skip(fields@.len() as int).len() == 0);
    }
    Option::None
}

/// The model of an executable full-shape decode result.
pub open spec fn shape_result_model(r: Result<Shape, DecodeError>) -> Result<
    ShapeModel,
    DecodeErrorModel,
> {
    match r {
        Result::Ok(s) => Result::Ok(shape_model(s)),
        Result::Err(e) => Result::Err(err_model(e)),
    }
}

/// The model of an executable planar-shape decode result.
pub open spec fn shape2d_result_model(r: Result<Shape2d, DecodeError>) -> Result<
    ShapeModel,
    DecodeErrorModel,
> {
    match r {
        Result::Ok(s) => Result::Ok(shape2d_model(s)),
        Result::Err(e) => Result::Err(err_model(e)),
    }
}

/// Reads the `radius` field of a circle object.
fn circle_fields(fields: &Vec<(String, Value)>) -> (r: Result<i64, DecodeError>)
    ensures
        (match r {
            Result::Ok(n) => spec_circle_fields(fields_model(fields@)) == Result::Ok::<
                int,
                DecodeErrorModel,
            >(n as int),
            Result::Err(e) => spec_circle_fields(fields_model(fields@)) == Result::Err::<
                int,
                DecodeErrorModel,
            >(err_model(e)),
        }),
{
    match get_field(fields, "radius") {
        Option::None => seg_err(DecodeErrorKind::MissingField, Seg::Field(FieldName::Radius)),
        Option::Some(rv) => match rv {
            Value::Num(n) => {
                if *n > 0 {
                    Result::Ok(*n)
                } else {
                    seg_err(DecodeErrorKind::NonPositive, Seg::Field(FieldName::Radius))
                }
            },
            _ => seg_err(DecodeErrorKind::WrongType, Seg::Field(FieldName::Radius)),
        },
    }
}

/// Decodes a value as a sketch's closed-curve chain, yielding its
/// radius.
fn decode_chain(v: &Value, depth: u32) -> (r: Result<i64, DecodeError>)
    ensures
        (match r {
            Result::Ok(n) => spec_decode_chain(value_model(*v), depth as nat) == Result::Ok::<
                int,
                DecodeErrorModel,
            >(n as int),
            Result::Err(e) => spec_decode_chain(value_model(*v), depth as nat) == Result::Err::<
                int,
                DecodeErrorModel,
            >(err_model(e)),
        }),
    decreases depth, 0int, 0int,
{
    if depth == 0 {
        return root_err(DecodeErrorKind::DepthExceeded);
    }
    match v {
        Value::Obj(fields) => match get_field(fields, "type") {
            Option::None => seg_err(DecodeErrorKind::MissingField, Seg::Field(FieldName::TypeTag)),
            Option::Some(tv) => match tv {
                Value::Text(tag) => {
                    if text_is(tag, "Circle") {
                        match circle_fields(fields) {
                            Result::Ok(n) => Result::Ok(n),
                            Result::Err(e) => Result::Err(wrap_err(e, Seg::Variant(VariantName::Circle))),
                        }
                    } else {
                        seg_err(DecodeErrorKind::UnknownVariant, Seg::Field(FieldName::TypeTag))
                    }
                },
                _ => seg_err(DecodeErrorKind::WrongType, Seg::Field(FieldName::TypeTag)),
            },
        },
        _ => root_err(DecodeErrorKind::WrongType),
    }
}

/// Decodes the fields of a sketch object.
fn sketch_fields(fields: &Vec<(String, Value)>, nested: u32) -> (r: Result<Sketch, DecodeError>)
    ensures
        (match r {
            Result::Ok(sk) => spec_sketch_fields(fields_model(fields@), nested as nat)
                == Result::Ok::<ShapeModel, DecodeErrorModel>(
                shape2d_model(Shape2d::Sketch(sk)),
            ),
            Result::Err(e) => spec_sketch_fields(fields_model(fields@), nested as nat)
                == Result::Err::<ShapeModel, DecodeErrorModel>(err_model(e)),
        }),
    decreases nested, 3int, 0int,
{
    match get_field(fields, "chain") {
        Option::None => seg_err(DecodeErrorKind::MissingField, Seg::Field(FieldName::Chain)),
        Option::Some(cv) => match decode_chain(cv, nested) {
            Result::Ok(n) => Result::Ok(Sketch { chain: Chain::Circle(Circle { radius: n }) }),
            Result::Err(e) => Result::Err(wrap_err(e, Seg::Field(FieldName::Chain))),
        },
    }
}

/// Decodes the fields of a difference object: exactly two planar
/// operands, in order.
fn difference_fields(fields: &Vec<(String, Value)>, nested: u32) -> (r: Result<
    Difference2d,
    DecodeError,
>)
    ensures
        (match r {
            Result::Ok(d) => spec_difference_fields(fields_model(fields@), nested as nat)
                == Result::Ok::<ShapeModel, DecodeErrorModel>(
                shape2d_model(Shape2d::Difference2d(d)),
            ),
            Result::Err(e) => spec_difference_fields(fields_model(fields@), nested as nat)
                == Result::Err::<ShapeModel, DecodeErrorModel>(err_model(e)),
        }),
    decreases nested, 3int, 0int,
{
    match get_field(fields, "shapes") {
        Option::None => seg_err(DecodeErrorKind::MissingField, Seg::Field(FieldName::Shapes)),
        Option::Some(sv) => match sv {
            Value::Arr(items) => {
                proof {
                    lemma_items_model_index(items@);
                }
                if items.len() != 2 {
                    seg_err(DecodeErrorKind::Arity, Seg::Field(FieldName::Shapes))
                } else {
                    match decode_shape2d(&items[0], nested) {
                        Result::Err(e) => Result::Err(
                            wrap_err(wrap_err(e, Seg::Index(0)), Seg::Field(FieldName::Shapes)),
                        ),
                        Result::Ok(minuend) => match decode_shape2d(&items[1], nested) {
                            Result::Err(e) => Result::Err(
                                wrap_err(wrap_err(e, Seg::Index(1)), Seg::Field(FieldName::Shapes)),
                            ),
                            Result::Ok(subtrahend) => Result::Ok(
                                Difference2d {
                                    minuend: Box::new(minuend),
                                    subtrahend: Box::new(subtrahend),
                                },
                            ),
                        },
                    }
                }
            },
            _ => seg_err(DecodeErrorKind::WrongType, Seg::Field(FieldName::Shapes)),
        },
    }
}

/// Decodes a value as a planar shape: only sketches and differences are
/// admitted.
pub fn decode_shape2d(v: &Value, depth: u32) -> (r: Result<Shape2d, DecodeError>)
    ensures
        shape2d_result_model(r) == spec_decode_shape2d(value_model(*v), depth as nat),
    decreases depth, 0int, 0int,
{
    if depth == 0 {
        return root_err(DecodeErrorKind::DepthExceeded);
    }
    match v {
        Value::Obj(fields) => match get_field(fields, "type") {
            Option::None => seg_err(DecodeErrorKind::MissingField, Seg::Field(FieldName::TypeTag)),
            Option::Some(tv) => match tv {
                Value::Text(tag) => {
                    if text_is(tag, "Sketch") {
                        match sketch_fields(fields, depth - 1) {
                            Result::Ok(sk) => Result::Ok(Shape2d::Sketch(sk)),
                            Result::Err(e) => Result::Err(wrap_err(e, Seg::Variant(VariantName::Sketch))),
                        }
                    } else if text_is(tag, "Difference2d") {
                        match difference_fields(fields, depth - 1) {
                            Result::Ok(d) => Result::Ok(Shape2d::Difference2d(d)),
                            Result::Err(e) => Result::Err(wrap_err(e, Seg::Variant(VariantName::Difference2d))),
                        }
                    } else {
                        seg_err(DecodeErrorKind::UnknownVariant, Seg::Field(FieldName::TypeTag))
                    }
                },
                _ => seg_err(DecodeErrorKind::WrongType, Seg::Field(FieldName::TypeTag)),
            },
        },
        _ => root_err(DecodeErrorKind::WrongType),
    }
}

/// An error in a prefix of the items settles the whole run.
proof fn lemma_members_prefix_err(s: Seq<ValueModel>, nested: nat, k: int)
    requires
        0 <= k <= s.len(),
        spec_members(s.subrange(0, k), nested) is Err,
    ensures
        spec_members(s, nested) == spec_members(s.subrange(0, k), nested),
    decreases s.len() - k,
{
    if k < s.len() {
        assert(s.subrange(0, k + 1).drop_last() =~= s.subrange(0, k));
        lemma_members_prefix_err(s, nested, k + 1);
    } else {
        assert(s.subrange(0, s.len() as int) =~= s);
    }
}

/// An error in a prefix of the components settles the whole run.
proof fn lemma_components_prefix_err(s: Seq<ValueModel>, k: int)
    requires
        0 <= k <= s.len(),
        spec_components(s.subrange(0, k)) is Err,
    ensures
        spec_components(s) == spec_components(s.subrange(0, k)),
    decreases s.len() - k,
{
    if k < s.len() {
        assert(s.subrange(0, k + 1).drop_last() =~= s.subrange(0, k));
        lemma_components_prefix_err(s, k + 1);
    } else {
        assert(s.subrange(0, s.len() as int) =~= s);
    }
}

/// Reads a run of numeric components.
fn decode_components(items: &Vec<Value>) -> (r: Result<Vec<i64>, DecodeError>)
    ensures
        (match r {
            Result::Ok(cs) => spec_components(items_model(items@)) == Result::Ok::<
                Seq<int>,
                DecodeErrorModel,
            >(cs@.map_values(|e: i64| e as int)) && cs@.len() == items@.len(),
            Result::Err(e) => spec_components(items_model(items@)) == Result::Err::<
                Seq<int>,
                DecodeErrorModel,
            >(err_model(e)),
        }),
{
    proof {
        lemma_items_model_index(items@);
    }
    let ghost im = items_model(items@);
    let mut cs: Vec<i64> = Vec::new();
    let mut i: usize = 0;
    proof {
        assert(im.subrange(0, 0) =~= Seq::<ValueModel>::empty());
        assert(cs@.map_values(|e: i64| e as int) =~= Seq::<int>::empty());
    }
    while i < items.len()
        invariant
            i <= items.len(),
            im == items_model(items@),
            im.len() == items@.len(),
            forall|j: int| 0 <= j < items@.len() ==> im[j] == value_model(items@[j]),
            cs@.len() == i,
            spec_components(im.subrange(0, i as int)) == Result::Ok::<
                Seq<int>,
                DecodeErrorModel,
            >(cs@.map_values(|e: i64| e as int)),
        decreases items.len() - i,
    {
        proof {
            assert(im.subrange(0, i + 1).drop_last() =~= im.subrange(0, i as int));
            assert(im.subrange(0, i + 1).last() == im[i as int]);
        }
        match &items[i] {
            Value::Num(n) => {
                let ghost old_cs = cs@;
                cs.push(*n);
                proof {
                    assert(cs@.map_values(|e: i64| e as int) =~= old_cs.map_values(
                        |e: i64| e as int,
                    ).push(*n as int));
                }
            },
            _ => {
                let r = seg_err::<Vec<i64>>(DecodeErrorKind::WrongType, Seg::Index(i));
                proof {
                    lemma_components_prefix_err(im, i + 1);
                }
                return r;
            },
        }
        i = i + 1;
    }
    proof {
        assert(im.subrange(0, items@.len() as int) =~= im);
    }
    Result::Ok(cs)
}

/// Decodes the members of a group, left to right.
fn decode_members(items: &Vec<Value>, nested: u32) -> (r: Result<Vec<Shape>, DecodeError>)
    ensures
        (match r {
            Result::Ok(ms) => spec_members(items_model(items@), nested as nat) == Result::Ok::<
                Seq<ShapeModel>,
                DecodeErrorModel,
            >(members_model(ms@)),
            Result::Err(e) => spec_members(items_model(items@), nested as nat) == Result::Err::<
                Seq<ShapeModel>,
                DecodeErrorModel,
            >(err_model(e)),
        }),
    decreases nested, 2int, 0int,
{
    proof {
        lemma_items_model_index(items@);
    }
    let ghost im = items_model(items@);
    let mut ms: Vec<Shape> = Vec::new();
    let mut i: usize = 0;
    proof {
        assert(im.subrange(0, 0) =~= Seq::<ValueModel>::empty());
    }
    while i < items.len()
        invariant
            i <= items.len(),
            im == items_model(items@),
            im.len() == items@.len(),
            forall|j: int| 0 <= j < items@.len() ==> im[j] == value_model(items@[j]),
            ms@.len() == i,
            spec_members(im.subrange(0, i as int), nested as nat) == Result::Ok::<
                Seq<ShapeModel>,
                DecodeErrorModel,
            >(members_model(ms@)),
        decreases items.len() - i,
    {
        proof {
            assert(im.subrange(0, i + 1).drop_last() =~= im.subrange(0, i as int));
            assert(im.subrange(0, i + 1).last() == im[i as int]);
        }
        match decode_shape(&items[i], nested) {
            Result::Ok(s) => {
                let ghost old_ms = ms@;
                ms.push(s);
                proof {
                    assert(ms@.drop_last() =~= old_ms);
                }
            },
            Result::Err(e) => {
                let r = Result::Err::<Vec<Shape>, DecodeError>(wrap_err(e, Seg::Index(i)));
                proof {
                    lemma_members_prefix_err(im, nested as nat, i + 1);
                }
                return r;
            },
        }
        i = i + 1;
    }
    proof {
        assert(im.subrange(0, items@.len() as int) =~= im);
    }
    Result::Ok(ms)
}

/// Decodes the fields of a sweep object.
fn sweep_fields(fields: &Vec<(String, Value)>, nested: u32) -> (r: Result<Sweep, DecodeError>)
    ensures
        (match r {
            Result::Ok(sw) => spec_sweep_fields(fields_model(fields@), nested as nat)
                == Result::Ok::<ShapeModel, DecodeErrorModel>(shape_model(Shape::Sweep(sw))),
            Result::Err(e) => spec_sweep_fields(fields_model(fields@), nested as nat)
                == Result::Err::<ShapeModel, DecodeErrorModel>(err_model(e)),
        }),
    decreases nested, 3int, 0int,
{
    match get_field(fields, "shape") {
        Option::None => seg_err(DecodeErrorKind::MissingField, Seg::Field(FieldName::Shape)),
        Option::Some(sv) => match decode_shape2d(sv, nested) {
            Result::Err(e) => Result::Err(wrap_err(e, Seg::Field(FieldName::Shape))),
            Result::Ok(shape) => match get_field(fields, "path") {
                Option::None => seg_err(
                    DecodeErrorKind::MissingField,
                    Seg::Field(FieldName::Path),
                ),
                Option::Some(pv) => match pv {
                    Value::Arr(items) => {
                        proof {
                            lemma_items_model_index(items@);
                        }
                        if items.len() != 3 {
                            seg_err(DecodeErrorKind::Arity, Seg::Field(FieldName::Path))
                        } else {
                            match decode_components(items) {
                                Result::Err(e) => Result::Err(wrap_err(e, Seg::Field(FieldName::Path))),
                                Result::Ok(cs) => {
                                    proof {
                                        let c = cs@.map_values(|e: i64| e as int);
                                        assert(c[0] == cs@[0] as int);
                                        assert(c[1] == cs@[1] as int);
                                        assert(c[2] == cs@[2] as int);
                                    }
                                    Result::Ok(
                                        Sweep {
                                            shape,
                                            path: Vec3 { x: cs[0], y: cs[1], z: cs[2] },
                                        },
                                    )
                                },
                            }
                        }
                    },
                    _ => seg_err(DecodeErrorKind::WrongType, Seg::Field(FieldName::Path)),
                },
            },
        },
    }
}

/// Decodes the fields of a transform object.
fn transform_fields(fields: &Vec<(String, Value)>, nested: u32) -> (r: Result<
    Transform,
    DecodeError,
>)
    ensures
        (match r {
            Result::Ok(t) => spec_transform_fields(fields_model(fields@), nested as nat)
                == Result::Ok::<ShapeModel, DecodeErrorModel>(
                shape_model(Shape::Transform(t)),
            ),
            Result::Err(e) => spec_transform_fields(fields_model(fields@), nested as nat)
                == Result::Err::<ShapeModel, DecodeErrorModel>(err_model(e)),
        }),
    decreases nested, 3int, 0int,
{
    match get_field(fields, "shape") {
        Option::None => seg_err(DecodeErrorKind::MissingField, Seg::Field(FieldName::Shape)),
        Option::Some(sv) => match decode_shape(sv, nested) {
            Result::Err(e) => Result::Err(wrap_err(e, Seg::Field(FieldName::Shape))),
            Result::Ok(shape) => match get_field(fields, "matrix") {
                Option::None => seg_err(
                    DecodeErrorKind::MissingField,
                    Seg::Field(FieldName::Matrix),
                ),
                Option::Some(mv) => match mv {
                    Value::Arr(items) => {
                        proof {
                            lemma_items_model_index(items@);
                        }
                        if items.len() != 16 {
                            seg_err(DecodeErrorKind::Arity, Seg::Field(FieldName::Matrix))
                        } else {
                            match decode_components(items) {
                                Result::Err(e) => Result::Err(wrap_err(e, Seg::Field(FieldName::Matrix))),
                                Result::Ok(cs) => Result::Ok(
                                    Transform { shape: Box::new(shape), matrix: cs },
                                ),
                            }
                        }
                    },
                    _ => seg_err(DecodeErrorKind::WrongType, Seg::Field(FieldName::Matrix)),
                },
            },
        },
    }
}

/// Decodes the fields of a group object.
fn group_fields(fields: &Vec<(String, Value)>, nested: u32) -> (r: Result<Group, DecodeError>)
    ensures
        (match r {
            Result::Ok(g) => spec_group_fields(fields_model(fields@), nested as nat)
                == Result::Ok::<ShapeModel, DecodeErrorModel>(shape_model(Shape::Group(g))),
            Result::Err(e) => spec_group_fields(fields_model(fields@), nested as nat)
                == Result::Err::<ShapeModel, DecodeErrorModel>(err_model(e)),
        }),
    decreases nested, 3int, 0int,
{
    match get_field(fields, "members") {
        Option::None => seg_err(DecodeErrorKind::MissingField, Seg::Field(FieldName::Members)),
        Option::Some(mv) => match mv {
            Value::Arr(items) => match decode_members(items, nested) {
                Result::Err(e) => Result::Err(wrap_err(e, Seg::Field(FieldName::Members))),
                Result::Ok(members) => Result::Ok(Group { members }),
            },
            _ => seg_err(DecodeErrorKind::WrongType, Seg::Field(FieldName::Members)),
        },
    }
}

/// Decodes a value as a full shape by its `type` discriminator.
pub fn decode_shape(v: &Value, depth: u32) -> (r: Result<Shape, DecodeError>)
    ensures
        shape_result_model(r) == spec_decode_shape(value_model(*v), depth as nat),
    decreases depth, 0int, 0int,
{
    if depth == 0 {
        return root_err(DecodeErrorKind::DepthExceeded);
    }
    match v {
        Value::Obj(fields) => match get_field(fields, "type") {
            Option::None => seg_err(DecodeErrorKind::MissingField, Seg::Field(FieldName::TypeTag)),
            Option::Some(tv) => match tv {
                Value::Text(tag) => {
                    if text_is(tag, "Circle") {
                        match circle_fields(fields) {
                            Result::Ok(n) => Result::Ok(Shape::Circle(Circle { radius: n })),
                            Result::Err(e) => Result::Err(wrap_err(e, Seg::Variant(VariantName::Circle))),
                        }
                    } else if text_is(tag, "Sketch") {
                        match sketch_fields(fields, depth - 1) {
                            Result::Ok(sk) => Result::Ok(Shape::Shape2d(Shape2d::Sketch(sk))),
                            Result::Err(e) => Result::Err(wrap_err(e, Seg::Variant(VariantName::Sketch))),
                        }
                    } else if text_is(tag, "Difference2d") {
                        match difference_fields(fields, depth - 1) {
                            Result::Ok(d) => Result::Ok(
                                Shape::Shape2d(Shape2d::Difference2d(d)),
                            ),
                            Result::Err(e) => Result::Err(wrap_err(e, Seg::Variant(VariantName::Difference2d))),
                        }
                    } else if text_is(tag, "Sweep") {
                        match sweep_fields(fields, depth - 1) {
                            Result::Ok(sw) => Result::Ok(Shape::Sweep(sw)),
                            Result::Err(e) => Result::Err(wrap_err(e, Seg::Variant(VariantName::Sweep))),
                        }
                    } else if text_is(tag, "Transform") {
                        match transform_fields(fields, depth - 1) {
                            Result::Ok(t) => Result::Ok(Shape::Transform(t)),
                            Result::Err(e) => Result::Err(wrap_err(e, Seg::Variant(VariantName::Transform))),
                        }
                    } else if text_is(tag, "Group") {
                        match group_fields(fields, depth - 1) {
                            Result::Ok(g) => Result::Ok(Shape::Group(g)),
                            Result::Err(e) => Result::Err(wrap_err(e, Seg::Variant(VariantName::Group))),
                        }
                    } else {
                        seg_err(DecodeErrorKind::UnknownVariant, Seg::Field(FieldName::TypeTag))
                    }
                },
                _ => seg_err(DecodeErrorKind::WrongType, Seg::Field(FieldName::TypeTag)),
            },
        },
        _ => root_err(DecodeErrorKind::WrongType),
    }
}

/// Decodes a value without a discriminator convention, trying the
/// variant decoders in the fixed priority order: group, difference,
/// sketch, sweep, transform.
pub fn decode_untagged(v: &Value, depth: u32) -> (r: Result<Shape, DecodeError>)
    ensures
        shape_result_model(r) == spec_decode_untagged(value_model(*v), depth as nat),
    decreases depth, 0int, 0int,
{
    if depth == 0 {
        return root_err(DecodeErrorKind::DepthExceeded);
    }
    match v {
        Value::Obj(fields) => {
            let nested = depth - 1;
            match group_fields(fields, nested) {
                Result::Ok(g) => {
                    return Result::Ok(Shape::Group(g));
                },
                Result::Err(_) => {},
            }
            match difference_fields(fields, nested) {
                Result::Ok(d) => {
                    return Result::Ok(Shape::Shape2d(Shape2d::Difference2d(d)));
                },
                Result::Err(_) => {},
            }
            match sketch_fields(fields, nested) {
                Result::Ok(sk) => {
                    return Result::Ok(Shape::Shape2d(Shape2d::Sketch(sk)));
                },
                Result::Err(_) => {},
            }
            match sweep_fields(fields, nested) {
                Result::Ok(sw) => {
                    return Result::Ok(Shape::Sweep(sw));
                },
                Result::Err(_) => {},
            }
            match transform_fields(fields, nested) {
                Result::Ok(t) => {
                    return Result::Ok(Shape::Transform(t));
                },
                Result::Err(_) => {},
            }
            root_err(DecodeErrorKind::NoVariantMatched)
        },
        _ => root_err(DecodeErrorKind::WrongType),
    }
}

/// Successfully decoded components are one per item.
proof fn lemma_components_len(items: Seq<ValueModel>)
    ensures
        spec_components(items) matches Result::Ok(cs) ==> cs.len() == items.len(),
    decreases items.len(),
{
    if items.len() > 0 {
        lemma_components_len(items.drop_last());
    }
}

/// A successfully decoded chain has a positive radius.
proof fn lemma_chain_wf(v: ValueModel, depth: nat)
    ensures
        spec_decode_chain(v, depth) matches Result::Ok(radius) ==> radius > 0,
{
}

/// A successfully decoded sketch is well formed and planar.
proof fn lemma_sketch_wf(fields: Seq<(Seq<char>, ValueModel)>, nested: nat)
    ensures
        spec_sketch_fields(fields, nested) matches Result::Ok(m) ==> wf_model(m) && is_2d_model(
            m,
        ),
    decreases nested, 3int, 0int,
{
    match field_of(fields, "chain"@) {
        Option::Some(cv) => lemma_chain_wf(cv, nested),
        Option::None => {},
    }
}

/// A successfully decoded difference is well formed and planar.
proof fn lemma_difference_wf(fields: Seq<(Seq<char>, ValueModel)>, nested: nat)
    ensures
        spec_difference_fields(fields, nested) matches Result::Ok(m) ==> wf_model(m)
            && is_2d_model(m),
    decreases nested, 3int, 0int,
{
    match field_of(fields, "shapes"@) {
        Option::Some(ValueModel::Arr(items)) => {
            if items.len() == 2 {
                lemma_decode_shape2d_wf(items[0], nested);
                lemma_decode_shape2d_wf(items[1], nested);
            }
        },
        _ => {},
    }
}

/// A successfully decoded sweep is well formed.
proof fn lemma_sweep_wf(fields: Seq<(Seq<char>, ValueModel)>, nested: nat)
    ensures
        spec_sweep_fields(fields, nested) matches Result::Ok(m) ==> wf_model(m),
    decreases nested, 3int, 0int,
{
    match field_of(fields, "shape"@) {
        Option::Some(sv) => lemma_decode_shape2d_wf(sv, nested),
        Option::None => {},
    }
}

/// A successfully decoded transform is well formed.
proof fn lemma_transform_wf(fields: Seq<(Seq<char>, ValueModel)>, nested: nat)
    ensures
        spec_transform_fields(fields, nested) matches Result::Ok(m) ==> wf_model(m),
    decreases nested, 3int, 0int,
{
    match field_of(fields, "shape"@) {
        Option::Some(sv) => {
            lemma_decode_shape_wf(sv, nested);
            match field_of(fields, "matrix"@) {
                Option::Some(ValueModel::Arr(items)) => lemma_components_len(items),
                _ => {},
            }
        },
        Option::None => {},
    }
}

/// Successfully decoded members are all well formed.
proof fn lemma_members_decode_wf(items: Seq<ValueModel>, nested: nat)
    ensures
        spec_members(items, nested) matches Result::Ok(ms) ==> members_wf(ms),
    decreases nested, 2int, items.len(),
{
    if items.len() > 0 {
        lemma_members_decode_wf(items.drop_last(), nested);
        lemma_decode_shape_wf(items.last(), nested);
        match spec_members(items.drop_last(), nested) {
            Result::Ok(ms) => match spec_decode_shape(items.last(), nested) {
                Result::Ok(m) => {
                    assert(ms.push(m).drop_last() =~= ms);
                },
                Result::Err(_) => {},
            },
            Result::Err(_) => {},
        }
    }
}

/// A successfully decoded group is well formed.
proof fn lemma_group_wf(fields: Seq<(Seq<char>, ValueModel)>, nested: nat)
    ensures
        spec_group_fields(fields, nested) matches Result::Ok(m) ==> wf_model(m),
    decreases nested, 3int, 0int,
{
    match field_of(fields, "members"@) {
        Option::Some(ValueModel::Arr(items)) => lemma_members_decode_wf(items, nested),
        _ => {},
    }
}

/// Whatever the full-shape decoder accepts is well formed: the shape
/// graph handed onwards never violates the algebra's invariants.
pub proof fn lemma_decode_shape_wf(v: ValueModel, depth: nat)
    ensures
        spec_decode_shape(v, depth) matches Result::Ok(m) ==> wf_model(m),
    decreases depth, 1int, 0int,
{
    if depth > 0 {
        match v {
            ValueModel::Obj(fields) => match field_of(fields, "type"@) {
                Option::Some(ValueModel::Text(tag)) => {
                    let nested = (depth - 1) as nat;
                    lemma_sketch_wf(fields, nested);
                    lemma_difference_wf(fields, nested);
                    lemma_sweep_wf(fields, nested);
                    lemma_transform_wf(fields, nested);
                    lemma_group_wf(fields, nested);
                },
                _ => {},
            },
            _ => {},
        }
    }
}

/// Whatever the planar decoder accepts is well formed and planar:
/// exactly the conditions a difference or sweep operand must meet.
pub proof fn lemma_decode_shape2d_wf(v: ValueModel, depth: nat)
    ensures
        spec_decode_shape2d(v, depth) matches Result::Ok(m) ==> wf_model(m) && is_2d_model(m),
    decreases depth, 1int, 0int,
{
    if depth > 0 {
        match v {
            ValueModel::Obj(fields) => match field_of(fields, "type"@) {
                Option::Some(ValueModel::Text(tag)) => {
                    let nested = (depth - 1) as nat;
                    lemma_sketch_wf(fields, nested);
                    lemma_difference_wf(fields, nested);
                },
                _ => {},
            },
            _ => {},
        }
    }
}

/// Whatever the trial decoder accepts is well formed.
pub proof fn lemma_decode_untagged_wf(v: ValueModel, depth: nat)
    ensures
        spec_decode_untagged(v, depth) matches Result::Ok(m) ==> wf_model(m),
    decreases depth, 1int, 0int,
{
    if depth > 0 {
        match v {
            ValueModel::Obj(fields) => {
                let nested = (depth - 1) as nat;
                lemma_group_wf(fields, nested);
                lemma_difference_wf(fields, nested);
                lemma_sketch_wf(fields, nested);
                lemma_sweep_wf(fields, nested);
                lemma_transform_wf(fields, nested);
            },
            _ => {},
        }
    }
}

/// The standard recursion budget for one decode pass; values nested
/// deeper fail with a depth error.
pub const MAX_DECODE_DEPTH: u32 = 64;

/// Decodes a script's returned value as a full shape under the standard
/// recursion budget. A successful decode is always well formed.
pub fn decode_returned_shape(v: &Value) -> (r: Result<Shape, DecodeError>)
    ensures
        shape_result_model(r) == spec_decode_shape(value_model(*v), MAX_DECODE_DEPTH as nat),
        r matches Result::Ok(s) ==> s.wf(),
{
    proof {
        lemma_decode_shape_wf(value_model(*v), MAX_DECODE_DEPTH as nat);
    }
    decode_shape(v, MAX_DECODE_DEPTH)
}

/// Decodes a script's returned value without a discriminator convention
/// under the standard recursion budget. A successful decode is always
/// well formed.
pub fn decode_returned_untagged(v: &Value) -> (r: Result<Shape, DecodeError>)
    ensures
        shape_result_model(r) == spec_decode_untagged(value_model(*v), MAX_DECODE_DEPTH as nat),
        r matches Result::Ok(s) ==> s.wf(),
{
    proof {
        lemma_decode_untagged_wf(value_model(*v), MAX_DECODE_DEPTH as nat);
    }
    decode_untagged(v, MAX_DECODE_DEPTH)
}

} // verus!
