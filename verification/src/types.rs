//! Shared type aliases and the validity rules for edge weights.
//!
//! Edge weights are IEEE-754 single-precision values in the original data
//! model, but the engine only ever needs to test them for being finite and
//! strictly positive, to compare them for equality, and to carry them around.
//! All of that is decidable on the raw bit pattern, so the engine stores each
//! weight as its 32 bit pattern (`WeightBitsT`) and never performs any
//! floating-point arithmetic on it.

use vstd::prelude::*;

verus! {

/// Identifier of a node, dense in `[0, nodes_number)`.
pub type NodeT = u32;

/// Identifier (and index) of a stored directed edge occurrence.
pub type EdgeT = u64;

/// Identifier of a node type.
pub type NodeTypeT = u32;

/// Identifier of an edge type.
pub type EdgeTypeT = u32;

/// The bit pattern of an IEEE-754 single-precision edge weight.
pub type WeightBitsT = u32;

/// Constant mixed into caller-provided random states so that the xorshift
/// generator never starts from its zero fixed point.
pub const SEED_XOR: u64 = 0xbad5eed;

/// A weight bit pattern stands for a strictly positive finite value exactly
/// when its sign bit is clear, it is not zero, and its exponent field is not
/// all ones (which would be an infinity or a NaN).
pub open spec fn spec_is_valid_weight(bits: WeightBitsT) -> bool {
    0 < bits < 0x7f800000u32
}

/// Returns whether the given weight bit pattern stands for a strictly
/// positive finite value.
pub fn is_valid_weight(bits: WeightBitsT) -> (r: bool)
    ensures
        r == spec_is_valid_weight(bits),
{
    0 < bits && bits < 0x7f800000u32
}

} // verus!
