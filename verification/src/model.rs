//! The model that the encoder takes: vertices, triangles, and an optional skeleton.

use crate::vertex::VertexFormat;
use vstd::prelude::*;

verus! {

/// The parent index of a joint that has no parent.
pub const NO_PARENT: u8 = 255;

/// A triangle: three indices into the vertices.
#[derive(Clone, Copy, Debug, PartialEq, Eq)]
pub struct Triangle {
    pub indices: [u16; 3],
}

/// A joint of the skeleton, with its inverse bind pose.
///
/// Floats are held as the bit patterns of their 32-bit form.
#[derive(Clone, Debug, PartialEq, Eq)]
pub struct RDJoint {
    pub name: String,
    /// Index of the parent joint, or [`NO_PARENT`].
    pub parent: u8,
    /// Translation column (x, y, z) of the inverse of the bind-pose matrix; `None`
    /// where that matrix has no inverse.
    pub inverse_translation: Option<[u32; 3]>,
    /// The rotation as a unit quaternion (x, y, z, w).
    pub rotation: [u32; 4],
}

/// A mesh with its declared sizes and, where it is skinned, its joints.
#[derive(Clone, Debug)]
pub struct RDModell {
    pub vertices: VertexFormat,
    /// Declared number of vertices.
    pub vertices_count: u32,
    /// Declared bytes per vertex.
    pub vertex_buffer_size: u32,
    pub triangle_indices: Vec<Triangle>,
    /// Declared number of indices: three for each triangle.
    pub triangles_idx_count: u32,
    pub joints: Option<Vec<RDJoint>>,
}

impl RDModell {
    /// Offset, from the meta base, of the slot that points to the vertex data.
    pub const VERTEX_META: u32 = 12;

    /// Offset, from the meta base, of the slot that points to the index data.
    pub const TRIANGLES_META: u32 = 16;

    /// What a model is meant to satisfy: the declared sizes are the real ones, and a
    /// joint's parent, where it has one, comes before the joint.
    ///
    /// The encoder does not ask for this; it reports a declared vertex size that
    /// disagrees with the vertices as [`crate::error::EncodeError::LayoutMismatch`].
    pub open spec fn wf(&self) -> bool {
        &&& self.vertices_count == self.vertices.spec_len()
        &&& self.vertex_buffer_size == self.vertices.spec_stride()
        &&& self.triangles_idx_count == 3 * self.triangle_indices@.len()
        &&& self.joints matches Some(joints) ==> forall|i: int|
            0 <= i < joints@.len() ==> #[trigger] joints@[i].parent == NO_PARENT
                || joints@[i].parent < i
    }

    pub open spec fn spec_has_skin(&self) -> bool {
        self.joints is Some
    }

    /// Whether the model carries joints.
    #[verifier::when_used_as_spec(spec_has_skin)]
    pub fn has_skin(&self) -> (b: bool)
        ensures
            b == self.spec_has_skin(),
    {
        self.joints.is_some()
    }
}

} // verus!
