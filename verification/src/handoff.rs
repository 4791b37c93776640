//! Handoff to the geometry processor: the finished shape, together with
//! an optional tolerance, packaged for meshing. The bridge holds no
//! further reference to the shape after handoff.

use vstd::prelude::*;

use crate::shape::Shape;

verus! {

/// One meshing request: the finished shape and the caller's tolerance,
/// in millionths; an absent tolerance means the processor's default.
#[derive(Debug, PartialEq, Eq)]
pub struct MeshRequest {
    pub shape: Shape,
    pub tolerance: Option<i64>,
}

/// Packages a finished shape for the geometry processor. The shape and
/// tolerance pass through exactly as given: the processor receives the
/// value unmodified.
pub fn prepare_handoff(shape: Shape, tolerance: Option<i64>) -> (r: MeshRequest)
    ensures
        r.shape == shape,
        r.tolerance == tolerance,
{
    MeshRequest { shape, tolerance }
}

} // verus!