//! The shape algebra: a recursive tagged union of geometric descriptions.
//! Every value is a finite, acyclic tree, immutable once constructed.
//!
//! Lengths (radii, sweep paths, matrix entries) are carried in fixed-point
//! form, an `i64` counting millionths, so the validation invariants are
//! exact; the embedding converts to its native numeric type after handoff.

use vstd::prelude::*;

verus! {

broadcast use vstd::std_specs::vec::group_vec_axioms;

/// A closed circle; the invariant demands a strictly positive radius.
#[derive(Debug, Clone, Copy, PartialEq, Eq)]
pub struct Circle {
    /// Radius in millionths.
    pub radius: i64,
}

/// A closed-curve description for a sketch; currently only a circle is
/// recognized.
#[derive(Debug, Clone, Copy, PartialEq, Eq)]
pub enum Chain {
    Circle(Circle),
}

/// A planar sketch bounded by one closed chain.
#[derive(Debug, Clone, Copy, PartialEq, Eq)]
pub struct Sketch {
    pub chain: Chain,
}

/// The boolean difference of exactly two planar operands; order matters.
#[derive(Debug, PartialEq, Eq)]
pub struct Difference2d {
    pub minuend: Box<Shape2d>,
    pub subtrahend: Box<Shape2d>,
}

/// The sub-union of shapes that may serve as planar operands.
#[derive(Debug, PartialEq, Eq)]
pub enum Shape2d {
    Sketch(Sketch),
    Difference2d(Difference2d),
}

/// A three-component direction vector, in millionths per component.
#[derive(Debug, Clone, Copy, PartialEq, Eq)]
pub struct Vec3 {
    pub x: i64,
    pub y: i64,
    pub z: i64,
}

/// A planar shape swept along a path into a solid.
///
/// Whether the path must be non-zero is left open by the surrounding
/// design; a zero path is accepted here and passed through unchanged.
#[derive(Debug, PartialEq, Eq)]
pub struct Sweep {
    pub shape: Shape2d,
    pub path: Vec3,
}

/// A shape under an affine transform, given as a 4x4 matrix in row-major
/// order; the invariant demands exactly sixteen entries.
#[derive(Debug, PartialEq, Eq)]
pub struct Transform {
    pub shape: Box<Shape>,
    /// Sixteen entries, each in millionths.
    pub matrix: Vec<i64>,
}

/// An ordered collection of shapes; an empty group is legal.
#[derive(Debug, PartialEq, Eq)]
pub struct Group {
    pub members: Vec<Shape>,
}

/// The full tagged union of shape variants.
#[derive(Debug, PartialEq, Eq)]
pub enum Shape {
    Circle(Circle),
    Shape2d(Shape2d),
    Sweep(Sweep),
    Transform(Transform),
    Group(Group),
}

/// Spec-level model of a shape: the same tree over `int` and `Seq`.
pub enum ShapeModel {
    Circle { radius: int },
    Sketch { radius: int },
    Difference2d { minuend: Box<ShapeModel>, subtrahend: Box<ShapeModel> },
    Sweep { shape: Box<ShapeModel>, path: (int, int, int) },
    Transform { shape: Box<ShapeModel>, matrix: Seq<int> },
    Group { members: Seq<ShapeModel> },
}

/// The mathematical tree a planar shape stands for.
pub open spec fn shape2d_model(s: Shape2d) -> ShapeModel
    decreases s,
{
    match s {
        Shape2d::Sketch(sk) => {
            let Chain::Circle(c) = sk.chain;
            ShapeModel::Sketch { radius: c.radius as int }
        },
        Shape2d::Difference2d(d) => ShapeModel::Difference2d {
            minuend: Box::new(shape2d_model(*d.minuend)),
            subtrahend: Box::new(shape2d_model(*d.subtrahend)),
        },
    }
}

/// The mathematical tree a shape stands for.
pub open spec fn shape_model(s: Shape) -> ShapeModel
    decreases s,
{
    match s {
        Shape::Circle(c) => ShapeModel::Circle { radius: c.radius as int },
        Shape::Shape2d(s2) => shape2d_model(s2),
        Shape::Sweep(sw) => ShapeModel::Sweep {
            shape: Box::new(shape2d_model(sw.shape)),
            path: (sw.path.x as int, sw.path.y as int, sw.path.z as int),
        },
        Shape::Transform(t) => ShapeModel::Transform {
            shape: Box::new(shape_model(*t.shape)),
            matrix: t.matrix@.map_values(|e: i64| e as int),
        },
        Shape::Group(g) => ShapeModel::Group { members: members_model(g.members@) },
    }
}

/// Element-wise model of a group's members.
pub open spec fn members_model(s: Seq<Shape>) -> Seq<ShapeModel>
    decreases s,
{
    if s.len() == 0 {
        Seq::empty()
    } else {
        members_model(s.drop_last()).push(shape_model(s.last()))
    }
}

/// The model keeps length and order: member `i` of the model is the
/// model of member `i`.
pub proof fn lemma_members_model_index(s: Seq<Shape>)
    ensures
        members_model(s).len() == s.len(),
        forall|i: int| 0 <= i < s.len() ==> members_model(s)[i] == shape_model(s[i]),
    decreases s,
{
    if s.len() > 0 {
        lemma_members_model_index(s.drop_last());
    }
}

/// Which model variants may serve as planar operands.
pub open spec fn is_2d_model(m: ShapeModel) -> bool {
    m matches ShapeModel::Sketch { .. } || m matches ShapeModel::Difference2d { .. }
}

/// Well-formedness of a shape tree: radii are positive, planar operands
/// are planar, and a transform matrix has exactly sixteen entries.
pub open spec fn wf_model(m: ShapeModel) -> bool
    decreases m,
{
    match m {
        ShapeModel::Circle { radius } => radius > 0,
        ShapeModel::Sketch { radius } => radius > 0,
        ShapeModel::Difference2d { minuend, subtrahend } => is_2d_model(*minuend)
            && is_2d_model(*subtrahend) && wf_model(*minuend) && wf_model(*subtrahend),
        ShapeModel::Sweep { shape, path } => is_2d_model(*shape) && wf_model(*shape),
        ShapeModel::Transform { shape, matrix } => matrix.len() == 16 && wf_model(*shape),
        ShapeModel::Group { members } => members_wf(members),
    }
}

/// Well-formedness of every member of a group.
pub open spec fn members_wf(s: Seq<ShapeModel>) -> bool
    decreases s,
{
    if s.len() == 0 {
        true
    } else {
        members_wf(s.drop_last()) && wf_model(s.last())
    }
}

/// A group is well formed exactly when each member is.
pub proof fn lemma_members_wf_index(s: Seq<ShapeModel>)
    ensures
        members_wf(s) <==> (forall|i: int| 0 <= i < s.len() ==> wf_model(s[i])),
    decreases s,
{
    if s.len() > 0 {
        lemma_members_wf_index(s.drop_last());
        assert(forall|i: int| 0 <= i < s.len() - 1 ==> s.drop_last()[i] == s[i]);
        assert(s.last() == s[s.len() - 1]);
    }
}

impl Shape2d {
    /// The planar shape's invariant.
    pub open spec fn wf(self) -> bool {
        wf_model(shape2d_model(self))
    }
}

impl Shape {
    /// The shape's invariant.
    pub open spec fn wf(self) -> bool {
        wf_model(shape_model(self))
    }
}

/// A structure-preserving copy of a planar shape: the copy has the same
/// model as the original.
pub fn clone_shape2d(s: &Shape2d) -> (r: Shape2d)
    ensures
        shape2d_model(r) == shape2d_model(*s),
    decreases *s,
{
    match s {
        Shape2d::Sketch(sk) => Shape2d::Sketch(*sk),
        Shape2d::Difference2d(d) => Shape2d::Difference2d(
            Difference2d {
                minuend: Box::new(clone_shape2d(&*d.minuend)),
                subtrahend: Box::new(clone_shape2d(&*d.subtrahend)),
            },
        ),
    }
}

/// A structure-preserving copy of a shape: the copy has the same model
/// as the original.
pub fn clone_shape(s: &Shape) -> (r: Shape)
    ensures
        shape_model(r) == shape_model(*s),
    decreases *s,
{
    match s {
        Shape::Circle(c) => Shape::Circle(*c),
        Shape::Shape2d(s2) => Shape::Shape2d(clone_shape2d(s2)),
        Shape::Sweep(sw) => Shape::Sweep(Sweep { shape: clone_shape2d(&sw.shape), path: sw.path }),
        Shape::Transform(t) => {
            let shape = Box::new(clone_shape(&*t.shape));
            let mut matrix: Vec<i64> = Vec::new();
            let mut i: usize = 0;
            while i < t.matrix.len()
                invariant
                    i <= t.matrix.len(),
                    matrix@ == t.matrix@.subrange(0, i as int),
                decreases t.matrix.len() - i,
            {
                matrix.push(t.matrix[i]);
                i = i + 1;
            }
            proof {
                assert(matrix@ =~= t.matrix@);
                assert(matrix@.map_values(|e: i64| e as int) =~= t.matrix@.map_values(
                    |e: i64| e as int,
                ));
            }
            Shape::Transform(Transform { shape, matrix })
        },
        Shape::Group(g) => {
            let mut members: Vec<Shape> = Vec::new();
            let mut i: usize = 0;
            while i < g.members.len()
                invariant
                    *s == Shape::Group(*g),
                    i <= g.members.len(),
                    members_model(members@) == members_model(g.members@.subrange(0, i as int)),
                    members@.len() == i,
                decreases g.members.len() - i,
            {
                proof {
                    // Termination: each member sits below the group in the
                    // shape tree, through the field, the vector and its view.
                    assert(decreases_to!(*s => (*s)->Group_0));
                    assert((*s)->Group_0 == *g);
                    assert(decreases_to!(*g => g.members));
                    assert(decreases_to!(g.members => g.members@));
                    assert(decreases_to!(g.members@ => g.members@[i as int]));
                    assert(decreases_to!(*s => g.members@[i as int]));
                }
                let m = clone_shape(&g.members[i]);
                proof {
                    let prefix = g.members@.subrange(0, i as int);
                    let next = g.members@.subrange(0, i + 1 as int);
                    assert(next.drop_last() =~= prefix);
                    assert(next.last() == g.members@[i as int]);
                    assert(members@.push(m).drop_last() =~= members@);
                }
                members.push(m);
                i = i + 1;
            }
            proof {
                assert(g.members@.subrange(0, g.members@.len() as int) =~= g.members@);
            }
            Shape::Group(Group { members })
        },
    }
}

} // verus!
