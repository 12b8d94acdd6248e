//! Why an encode can fail.

use vstd::prelude::*;

verus! {

/// The ways in which an encode fails. Each is fatal to the encode: what was written
/// up to then is not a valid image.
///
/// The sizes that the format fixes (the header, the material block, a joint record) are
/// established by the encoder's contracts, so no failure stands for them.
#[derive(Clone, Copy, Debug, PartialEq, Eq, Structural)]
pub enum EncodeError {
    /// The bytes of the vertices do not come to the declared count times the declared
    /// stride.
    LayoutMismatch,
    /// The bind pose of a joint has no inverse.
    NonInvertibleBindPose,
    /// A skin section was asked for, and the model carries no joints.
    MissingSkinData,
}

} // verus!
