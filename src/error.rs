use vstd::prelude::*;

verus! {

/// Why a byte string was not accepted as part of a proof.
#[derive(Clone, Copy, Debug, PartialEq, Eq)]
pub enum DecodeError {
    /// Not the uncompressed encoding of a finite point of the curve.
    InvalidPoint,
    /// Not 32 bytes, or not below the group order.
    InvalidScalar,
}

/// Why a proof has no canonical encoding.
#[derive(Clone, Copy, Debug, PartialEq, Eq)]
pub enum EncodeError {
    /// The commitment is the point at infinity, which has no affine encoding.
    PointAtInfinity,
}

} // verus!
