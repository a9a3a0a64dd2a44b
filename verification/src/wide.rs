//! 256-bit unsigned arithmetic on little-endian limbs.
//!
//! The arithmetic itself is `alloy::primitives::U256`. This module states what
//! the two operations used by the price engine compute; Verus takes those
//! statements on trust.

use vstd::arithmetic::power2::pow2;
use vstd::prelude::*;

verus! {

/// The number denoted by four 64-bit limbs, least significant limb first.
pub open spec fn limbs_value(limbs: Seq<u64>) -> nat
    recommends
        limbs.len() == 4,
{
    (limbs[0] as nat) + (limbs[1] as nat) * 0x1_0000_0000_0000_0000nat + (limbs[2] as nat)
        * 0x1_0000_0000_0000_0000_0000_0000_0000_0000nat + (limbs[3] as nat)
        * 0x1_0000_0000_0000_0000_0000_0000_0000_0000_0000_0000_0000_0000nat
}

/// Two to the power 256: the number of values a 256-bit word can take.
pub open spec fn wide_modulus() -> nat {
    0x1_0000_0000_0000_0000_0000_0000_0000_0000_0000_0000_0000_0000_0000_0000_0000_0000nat
}

/// Trusted: `U256 >> usize`, which `ruint` implements as `wrapping_shr`. The
/// result is the floor of the operand divided by two to the power `bits`; a
/// shift by 256 bits or more gives zero, which is that same quotient.
#[verifier::external_body]
pub(crate) fn shift_right(limbs: [u64; 4], bits: usize) -> (out: [u64; 4])
    ensures
        limbs_value(out@) == limbs_value(limbs@) / pow2(bits as nat),
{
    (alloy::primitives::U256::from_limbs(limbs) >> bits).into_limbs()
}

/// Trusted: `U256 * U256`, which `ruint` implements as `wrapping_mul`. The
/// result is the product reduced modulo two to the power 256.
#[verifier::external_body]
pub(crate) fn wrapping_product(a: [u64; 4], b: [u64; 4]) -> (out: [u64; 4])
    ensures
        limbs_value(out@) == (limbs_value(a@) * limbs_value(b@)) % wide_modulus(),
{
    (alloy::primitives::U256::from_limbs(a) * alloy::primitives::U256::from_limbs(b)).into_limbs()
}

} // verus!
