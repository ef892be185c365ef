//! The local transform of a node.

use vstd::prelude::*;

verus! {

/// Bit pattern of the single-precision number `1.0`.
pub const ONE: u32 = 0x3f80_0000;

/// Bit pattern of the single-precision number `0.0`.
pub const ZERO: u32 = 0;

/// A 4x4 transform in a node's local coordinate space.
///
/// Every entry is the IEEE 754 bit pattern of a single-precision number, as
/// `f32::to_bits` gives it. The tree never computes with a transform, it only
/// carries it, so the bit pattern is all it needs and a copy is exact.
#[derive(Clone, Copy, Debug, PartialEq, Eq, Structural)]
pub struct Matrix4x4 {
    pub a1: u32,
    pub a2: u32,
    pub a3: u32,
    pub a4: u32,
    pub b1: u32,
    pub b2: u32,
    pub b3: u32,
    pub b4: u32,
    pub c1: u32,
    pub c2: u32,
    pub c3: u32,
    pub c4: u32,
    pub d1: u32,
    pub d2: u32,
    pub d3: u32,
    pub d4: u32,
}

impl Matrix4x4 {
    /// The identity transform: ones on the diagonal, zeros elsewhere.
    pub open spec fn spec_identity() -> Matrix4x4 {
        Matrix4x4 {
            a1: ONE, a2: ZERO, a3: ZERO, a4: ZERO,
            b1: ZERO, b2: ONE, b3: ZERO, b4: ZERO,
            c1: ZERO, c2: ZERO, c3: ONE, c4: ZERO,
            d1: ZERO, d2: ZERO, d3: ZERO, d4: ONE,
        }
    }

    /// Returns the identity transform.
    #[verifier::when_used_as_spec(spec_identity)]
    pub fn identity() -> (m: Matrix4x4)
        ensures
            m == Matrix4x4::spec_identity(),
    {
        Matrix4x4 {
            a1: ONE, a2: ZERO, a3: ZERO, a4: ZERO,
            b1: ZERO, b2: ONE, b3: ZERO, b4: ZERO,
            c1: ZERO, c2: ZERO, c3: ONE, c4: ZERO,
            d1: ZERO, d2: ZERO, d3: ZERO, d4: ONE,
        }
    }
}

impl Default for Matrix4x4 {
    /// A transform that was never set is the identity.
    fn default() -> (m: Matrix4x4)
        ensures
            m == Matrix4x4::spec_identity(),
    {
        Matrix4x4::identity()
    }
}

} // verus!
