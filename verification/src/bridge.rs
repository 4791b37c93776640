//! The construction bridge: a fixed catalogue of constructor operations
//! exposed to the script, one per shape variant. The script never holds
//! a shape value — it holds an opaque handle into an arena owned by the
//! bridge, and every operation takes and returns handles. Each operation
//! is pure and strictly typed: a bad handle or a kind mismatch is a hard
//! error surfaced to the script as a call failure, never coerced, so a
//! malformed intermediate shape is unrepresentable.

use vstd::prelude::*;

use crate::shape::{
    Chain, Circle, Difference2d, Group, Shape, Shape2d, ShapeModel, Sketch, Sweep, Transform,
    Vec3, clone_shape, clone_shape2d, is_2d_model, lemma_members_model_index,
    lemma_members_wf_index, members_model, members_wf,
};

verus! {

broadcast use vstd::std_specs::vec::group_vec_axioms;

/// What can go wrong at an operation's call boundary.
#[derive(Debug, Clone, Copy, PartialEq, Eq)]
pub enum BridgeError {
    /// A handle names no arena entry.
    UnknownHandle,
    /// The entry behind a handle has the wrong kind for this spot.
    KindMismatch,
    /// A radius was zero or negative.
    NonPositive,
    /// A transform matrix had any entry count but sixteen.
    MatrixArity,
}

/// The arena of constructed shapes, indexed by the opaque handles the
/// script holds.
pub struct Bridge {
    shapes: Vec<Shape>,
}

impl Bridge {
    /// The models of the constructed shapes, in construction order.
    pub closed spec fn arena(self) -> Seq<ShapeModel> {
        members_model(self.shapes@)
    }

    /// Every constructed shape is well formed.
    pub open spec fn wf(self) -> bool {
        members_wf(self.arena())
    }

    /// A fresh bridge with an empty arena.
    pub fn new() -> (b: Bridge)
        ensures
            b.arena() == Seq::<ShapeModel>::empty(),
            b.wf(),
    {
        let b = Bridge { shapes: Vec::new() };
        proof {
            assert(b.arena() =~= Seq::<ShapeModel>::empty());
        }
        b
    }

    /// How many shapes have been constructed.
    pub fn len(&self) -> (n: usize)
        ensures
            n == self.arena().len(),
    {
        proof {
            lemma_members_model_index(self.shapes@);
        }
        self.shapes.len()
    }

    /// Constructs a circle from a radius (in millionths). A zero or
    /// negative radius is rejected outright.
    pub fn op_circle_from_radius(&mut self, radius: i64) -> (r: Result<usize, BridgeError>)
        requires
            old(self).wf(),
        ensures
            final(self).wf(),
            radius > 0 ==> r == Result::Ok::<usize, BridgeError>(old(self).arena().len() as usize)
                && final(self).arena() == old(self).arena().push(
                ShapeModel::Circle { radius: radius as int },
            ),
            radius <= 0 ==> r == Result::Err::<usize, BridgeError>(BridgeError::NonPositive)
                && final(self).arena() == old(self).arena(),
    {
        if radius <= 0 {
            return Result::Err(BridgeError::NonPositive);
        }
        self.push_shape(Shape::Circle(Circle { radius }))
    }

    /// Constructs a sketch from a circle handle.
    pub fn op_sketch_from_circle(&mut self, circle: usize) -> (r: Result<usize, BridgeError>)
        requires
            old(self).wf(),
        ensures
            final(self).wf(),
            circle >= old(self).arena().len() ==> r == Result::Err::<usize, BridgeError>(
                BridgeError::UnknownHandle,
            ) && final(self).arena() == old(self).arena(),
            circle < old(self).arena().len() ==> (match old(self).arena()[circle as int] {
                ShapeModel::Circle { radius } => r == Result::Ok::<usize, BridgeError>(
                    old(self).arena().len() as usize,
                ) && final(self).arena() == old(self).arena().push(ShapeModel::Sketch { radius }),
                _ => r == Result::Err::<usize, BridgeError>(BridgeError::KindMismatch) && final(self).arena() == old(self).arena(),
            }),
    {
        proof {
            lemma_members_model_index(self.shapes@);
            lemma_members_wf_index(self.arena());
        }
        if circle >= self.shapes.len() {
            return Result::Err(BridgeError::UnknownHandle);
        }
        match &self.shapes[circle] {
            Shape::Circle(c) => {
                let sketch = Sketch { chain: Chain::Circle(*c) };
                self.push_shape(Shape::Shape2d(Shape2d::Sketch(sketch)))
            },
            _ => Result::Err(BridgeError::KindMismatch),
        }
    }

    /// Constructs the difference of two planar handles; the first is
    /// the minuend, the second the subtrahend.
    pub fn op_difference2d(&mut self, a: usize, b: usize) -> (r: Result<usize, BridgeError>)
        requires
            old(self).wf(),
        ensures
            final(self).wf(),
            a >= old(self).arena().len() || b >= old(self).arena().len() ==> r == Result::Err::<
                usize,
                BridgeError,
            >(BridgeError::UnknownHandle) && final(self).arena() == old(self).arena(),
            a < old(self).arena().len() && b < old(self).arena().len() && (!is_2d_model(
                old(self).arena()[a as int],
            ) || !is_2d_model(old(self).arena()[b as int])) ==> r == Result::Err::<
                usize,
                BridgeError,
            >(BridgeError::KindMismatch) && final(self).arena() == old(self).arena(),
            a < old(self).arena().len() && b < old(self).arena().len() && is_2d_model(
                old(self).arena()[a as int],
            ) && is_2d_model(old(self).arena()[b as int]) ==> r == Result::Ok::<
                usize,
                BridgeError,
            >(old(self).arena().len() as usize) && final(self).arena() == old(self).arena().push(
                ShapeModel::Difference2d {
                    minuend: Box::new(old(self).arena()[a as int]),
                    subtrahend: Box::new(old(self).arena()[b as int]),
                },
            ),
    {
        proof {
            lemma_members_model_index(self.shapes@);
        }
        if a >= self.shapes.len() || b >= self.shapes.len() {
            return Result::Err(BridgeError::UnknownHandle);
        }
        let minuend = match &self.shapes[a] {
            Shape::Shape2d(s2) => clone_shape2d(s2),
            _ => {
                return Result::Err(BridgeError::KindMismatch);
            },
        };
        let subtrahend = match &self.shapes[b] {
            Shape::Shape2d(s2) => clone_shape2d(s2),
            _ => {
                return Result::Err(BridgeError::KindMismatch);
            },
        };
        proof {
            lemma_members_wf_index(self.arena());
        }
        self.push_shape(
            Shape::Shape2d(
                Shape2d::Difference2d(
                    Difference2d {
                        minuend: Box::new(minuend),
                        subtrahend: Box::new(subtrahend),
                    },
                ),
            ),
        )
    }

    /// Constructs a sweep of a planar handle along a path.
    pub fn op_sweep(&mut self, shape: usize, path: Vec3) -> (r: Result<usize, BridgeError>)
        requires
            old(self).wf(),
        ensures
            final(self).wf(),
            shape >= old(self).arena().len() ==> r == Result::Err::<usize, BridgeError>(
                BridgeError::UnknownHandle,
            ) && final(self).arena() == old(self).arena(),
            shape < old(self).arena().len() && !is_2d_model(old(self).arena()[shape as int])
                ==> r == Result::Err::<usize, BridgeError>(BridgeError::KindMismatch) && final(self).arena() == old(self).arena(),
            shape < old(self).arena().len() && is_2d_model(old(self).arena()[shape as int]) ==> r
                == Result::Ok::<usize, BridgeError>(old(self).arena().len() as usize) && final(self).arena() == old(self).arena().push(
                ShapeModel::Sweep {
                    shape: Box::new(old(self).arena()[shape as int]),
                    path: (path.x as int, path.y as int, path.z as int),
                },
            ),
    {
        proof {
            lemma_members_model_index(self.shapes@);
        }
        if shape >= self.shapes.len() {
            return Result::Err(BridgeError::UnknownHandle);
        }
        let operand = match &self.shapes[shape] {
            Shape::Shape2d(s2) => clone_shape2d(s2),
            _ => {
                return Result::Err(BridgeError::KindMismatch);
            },
        };
        proof {
            lemma_members_wf_index(self.arena());
        }
        self.push_shape(Shape::Sweep(Sweep { shape: operand, path }))
    }

    /// Constructs a transform of any handle by a sixteen-entry matrix.
    pub fn op_transform(&mut self, shape: usize, matrix: Vec<i64>) -> (r: Result<
        usize,
        BridgeError,
    >)
        requires
            old(self).wf(),
        ensures
            final(self).wf(),
            shape >= old(self).arena().len() ==> r == Result::Err::<usize, BridgeError>(
                BridgeError::UnknownHandle,
            ) && final(self).arena() == old(self).arena(),
            shape < old(self).arena().len() && matrix@.len() != 16 ==> r == Result::Err::<
                usize,
                BridgeError,
            >(BridgeError::MatrixArity) && final(self).arena() == old(self).arena(),
            shape < old(self).arena().len() && matrix@.len() == 16 ==> r == Result::Ok::<
                usize,
                BridgeError,
            >(old(self).arena().len() as usize) && final(self).arena() == old(self).arena().push(
                ShapeModel::Transform {
                    shape: Box::new(old(self).arena()[shape as int]),
                    matrix: matrix@.map_values(|e: i64| e as int),
                },
            ),
    {
        proof {
            lemma_members_model_index(self.shapes@);
        }
        if shape >= self.shapes.len() {
            return Result::Err(BridgeError::UnknownHandle);
        }
        if matrix.len() != 16 {
            return Result::Err(BridgeError::MatrixArity);
        }
        let operand = clone_shape(&self.shapes[shape]);
        proof {
            lemma_members_wf_index(self.arena());
        }
        self.push_shape(Shape::Transform(Transform { shape: Box::new(operand), matrix }))
    }

    /// Constructs a group of the given handles, in order; an empty
    /// group is legal.
    pub fn op_group(&mut self, handles: &Vec<usize>) -> (r: Result<usize, BridgeError>)
        requires
            old(self).wf(),
        ensures
            final(self).wf(),
            (exists|i: int|
                0 <= i < handles@.len() && handles@[i] >= old(self).arena().len()) ==> r
                == Result::Err::<usize, BridgeError>(BridgeError::UnknownHandle) && final(self).arena() == old(self).arena(),
            (forall|i: int|
                0 <= i < handles@.len() ==> handles@[i] < old(self).arena().len()) ==> r
                == Result::Ok::<usize, BridgeError>(old(self).arena().len() as usize) && final(self).arena() == old(self).arena().push(
                ShapeModel::Group {
                    members: Seq::new(
                        handles@.len(),
                        |i: int| old(self).arena()[handles@[i] as int],
                    ),
                },
            ),
    {
        proof {
            lemma_members_model_index(self.shapes@);
        }
        let ghost arena0 = self.arena();
        let mut members: Vec<Shape> = Vec::new();
        let mut i: usize = 0;
        proof {
            assert(members_model(members@) =~= Seq::<ShapeModel>::empty());
        }
        while i < handles.len()
            invariant
                i <= handles.len(),
                arena0 == old(self).arena(),
                arena0 == self.arena(),
                self.wf(),
                arena0 == members_model(self.shapes@),
                arena0.len() == self.shapes@.len(),
                forall|j: int| 0 <= j < self.shapes@.len() ==> arena0[j] == crate::shape::shape_model(
                    self.shapes@[j],
                ),
                forall|j: int| 0 <= j < i ==> handles@[j] < arena0.len(),
                members@.len() == i,
                members_model(members@) == Seq::new(
                    i as nat,
                    |j: int| arena0[handles@[j] as int],
                ),
            decreases handles.len() - i,
        {
            let h = handles[i];
            if h >= self.shapes.len() {
                return Result::Err(BridgeError::UnknownHandle);
            }
            let ghost old_members = members@;
            let m = clone_shape(&self.shapes[h]);
            members.push(m);
            proof {
                assert(members@.drop_last() =~= old_members);
                assert(members_model(members@) =~= Seq::new(
                    (i + 1) as nat,
                    |j: int| arena0[handles@[j] as int],
                ));
            }
            i = i + 1;
        }
        proof {
            lemma_members_wf_index(arena0);
            lemma_members_wf_index(members_model(members@));
        }
        self.push_shape(Shape::Group(Group { members }))
    }

    /// Hands a finished shape out of the arena: the final handoff. The
    /// bridge is consumed and retains no reference.
    pub fn take_shape(self, handle: usize) -> (r: Result<Shape, BridgeError>)
        requires
            self.wf(),
        ensures
            handle >= self.arena().len() ==> r == Result::Err::<Shape, BridgeError>(
                BridgeError::UnknownHandle,
            ),
            handle < self.arena().len() ==> (r matches Result::Ok(s)
                && crate::shape::shape_model(s) == self.arena()[handle as int] && s.wf()),
    {
        proof {
            lemma_members_model_index(self.shapes@);
            lemma_members_wf_index(self.arena());
        }
        let mut shapes = self.shapes;
        if handle >= shapes.len() {
            return Result::Err(BridgeError::UnknownHandle);
        }
        let s = shapes.swap_remove(handle);
        Result::Ok(s)
    }

    /// Appends a well-formed shape to the arena, returning its handle.
    fn push_shape(&mut self, s: Shape) -> (r: Result<usize, BridgeError>)
        requires
            old(self).wf(),
            s.wf(),
        ensures
            final(self).wf(),
            r == Result::Ok::<usize, BridgeError>(old(self).arena().len() as usize),
            final(self).arena() == old(self).arena().push(crate::shape::shape_model(s)),
    {
        proof {
            lemma_members_model_index(self.shapes@);
        }
        let handle = self.shapes.len();
        let ghost old_shapes = self.shapes@;
        self.shapes.push(s);
        proof {
            assert(self.shapes@.drop_last() =~= old_shapes);
            lemma_members_wf_index(members_model(old_shapes));
            lemma_members_wf_index(members_model(self.shapes@));
            lemma_members_model_index(self.shapes@);
        }
        Result::Ok(handle)
    }
}

} // verus!