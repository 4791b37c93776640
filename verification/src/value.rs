//! The untyped, self-describing value a script hands back: the bridge's
//! model of whatever dynamic data the embedding produced. A `Value` is a
//! finite tree of nulls, booleans, numbers, text, arrays and objects.
//!
//! Numbers are carried in fixed-point form: an `i64` counting millionths,
//! so that the bridge's validation logic stays exact. The embedding
//! converts its native numeric type at the boundary.

use vstd::prelude::*;

verus! {

broadcast use vstd::std_specs::vec::group_vec_axioms;

/// Spec-level model of a `Value`: the same tree over `Seq` and `int`.
pub enum ValueModel {
    Null,
    Bool(bool),
    Num(int),
    Text(Seq<char>),
    Arr(Seq<ValueModel>),
    Obj(Seq<(Seq<char>, ValueModel)>),
}

/// An untyped structured value returned by a script export.
#[derive(Debug, PartialEq, Eq)]
pub enum Value {
    /// The script's null/undefined.
    Null,
    /// A boolean.
    Bool(bool),
    /// A number, in millionths (fixed point).
    Num(i64),
    /// A text string.
    Text(String),
    /// An ordered array of values.
    Arr(Vec<Value>),
    /// An object: ordered list of (key, value) pairs.
    Obj(Vec<(String, Value)>),
}

/// The mathematical tree a `Value` stands for.
pub open spec fn value_model(v: Value) -> ValueModel
    decreases v,
{
    match v {
        Value::Null => ValueModel::Null,
        Value::Bool(b) => ValueModel::Bool(b),
        Value::Num(n) => ValueModel::Num(n as int),
        Value::Text(s) => ValueModel::Text(s@),
        Value::Arr(items) => ValueModel::Arr(items_model(items@)),
        Value::Obj(fields) => ValueModel::Obj(fields_model(fields@)),
    }
}

/// Element-wise model of an array's items.
pub open spec fn items_model(s: Seq<Value>) -> Seq<ValueModel>
    decreases s,
{
    if s.len() == 0 {
        Seq::empty()
    } else {
        items_model(s.drop_last()).push(value_model(s.last()))
    }
}

/// Pair-wise model of an object's fields.
pub open spec fn fields_model(s: Seq<(String, Value)>) -> Seq<(Seq<char>, ValueModel)>
    decreases s,
{
    if s.len() == 0 {
        Seq::empty()
    } else {
        fields_model(s.drop_last()).push((s.last().0@, value_model(s.last().1)))
    }
}

impl DeepView for Value {
    type V = ValueModel;

    open spec fn deep_view(&self) -> ValueModel {
        value_model(*self)
    }
}

/// The models keep length and order: item `i` of the model is the model
/// of item `i`.
pub proof fn lemma_items_model_index(s: Seq<Value>)
    ensures
        items_model(s).len() == s.len(),
        forall|i: int| 0 <= i < s.len() ==> items_model(s)[i] == value_model(s[i]),
    decreases s,
{
    if s.len() > 0 {
        lemma_items_model_index(s.drop_last());
    }
}

/// Field `i` of the model is the model of field `i`.
pub proof fn lemma_fields_model_index(s: Seq<(String, Value)>)
    ensures
        fields_model(s).len() == s.len(),
        forall|i: int|
            0 <= i < s.len() ==> fields_model(s)[i] == (s[i].0@, value_model(s[i].1)),
    decreases s,
{
    if s.len() > 0 {
        lemma_fields_model_index(s.drop_last());
    }
}

} // verus!
