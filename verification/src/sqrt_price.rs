//! The square-root price of a pool: an unsigned 160-bit Q64.96 fixed-point
//! number whose square is the raw token1/token0 ratio.

use crate::wide::{limbs_value, shift_right, wide_modulus, wrapping_product};
use vstd::arithmetic::power2::{lemma2_to64, lemma_pow2_adds, pow2};
use vstd::prelude::*;

verus! {

/// The scale of the fixed-point encoding: two to the power 96.
pub const Q96: u128 = 0x1_0000_0000_0000_0000_0000_0000;

/// The integer part of a Q64.96 number.
pub open spec fn integer_part_of(sqrt_price: nat) -> nat {
    sqrt_price / (Q96 as nat)
}

/// The raw token1/token0 ratio that the engine derives from a square-root
/// price: the square of its integer part. The 96 fractional bits are dropped
/// before squaring, so every square-root price below `Q96` gives zero.
pub open spec fn raw_ratio_of(sqrt_price: nat) -> nat {
    integer_part_of(sqrt_price) * integer_part_of(sqrt_price)
}

/// Two to the power 160: every square-root price lies below it.
pub open spec fn sqrt_price_bound() -> nat {
    0x1_0000_0000_0000_0000_0000_0000_0000_0000_0000_0000nat
}

/// A 160-bit square-root price, held as its top 32 and low 128 bits.
#[derive(Clone, Copy, Debug, PartialEq, Eq, Structural)]
pub struct SqrtPriceX96 {
    pub hi: u32,
    pub lo: u128,
}

impl View for SqrtPriceX96 {
    type V = nat;

    open spec fn view(&self) -> nat {
        (self.hi as nat) * 0x1_0000_0000_0000_0000_0000_0000_0000_0000nat + (self.lo as nat)
    }
}

/// The shift by 96 bits divides by `Q96`.
proof fn lemma_pow2_96()
    ensures
        pow2(96) == Q96,
{
    lemma2_to64();
    lemma_pow2_adds(64, 32);
}

impl SqrtPriceX96 {
    /// The square-root price with the given value.
    pub fn from_u128(value: u128) -> (price: SqrtPriceX96)
        ensures
            price@ == value,
    {
        SqrtPriceX96 { hi: 0, lo: value }
    }

    /// Builds a square-root price from three little-endian 64-bit limbs.
    /// Returns `None` exactly when the limbs denote a number of more than 160
    /// bits.
    pub fn from_limbs(limbs: [u64; 3]) -> (price: Option<SqrtPriceX96>)
        ensures
            price is Some <==> limbs[2] < 0x1_0000_0000,
            price matches Some(p) ==> p@ == limbs[0] + limbs[1] * 0x1_0000_0000_0000_0000
                + limbs[2] * 0x1_0000_0000_0000_0000_0000_0000_0000_0000,
    {
        if limbs[2] > 0xFFFF_FFFF {
            None
        } else {
            let lo: u128 = limbs[0] as u128 + (limbs[1] as u128) * 0x1_0000_0000_0000_0000;
            Some(SqrtPriceX96 { hi: limbs[2] as u32, lo })
        }
    }

    /// Every square-root price is a number of at most 160 bits.
    pub proof fn lemma_bounded(self)
        ensures
            self@ < sqrt_price_bound(),
    {
    }

    /// Whether the value is zero.
    pub fn is_zero(&self) -> (zero: bool)
        ensures
            zero <==> self@ == 0,
    {
        self.hi == 0 && self.lo == 0
    }

    /// The value as four little-endian limbs of a 256-bit word.
    fn widen(&self) -> (limbs: [u64; 4])
        ensures
            limbs_value(limbs@) == self@,
    {
        let low: u64 = (self.lo % 0x1_0000_0000_0000_0000) as u64;
        let mid: u64 = (self.lo / 0x1_0000_0000_0000_0000) as u64;
        [low, mid, self.hi as u64, 0]
    }

    /// The integer part: the value shifted right by 96 bits.
    pub fn integer_part(&self) -> (q: u64)
        ensures
            q == integer_part_of(self@),
    {
        let shifted = shift_right(self.widen(), 96);
        proof {
            lemma_pow2_96();
        }
        shifted[0]
    }

    /// The raw token1/token0 ratio: the square of the integer part, computed
    /// in 256-bit arithmetic where it cannot wrap.
    pub fn raw_ratio(&self) -> (ratio: u128)
        ensures
            ratio == raw_ratio_of(self@),
    {
        let shifted = shift_right(self.widen(), 96);
        let square = wrapping_product(shifted, shifted);
        proof {
            lemma_pow2_96();
            let q = integer_part_of(self@);
            assert(limbs_value(shifted@) == q);
            assert(q * q < 0x1_0000_0000_0000_0000_0000_0000_0000_0000) by (nonlinear_arith)
                requires
                    q < 0x1_0000_0000_0000_0000,
            ;
            assert((q * q) % wide_modulus() == q * q);
        }
        square[0] as u128 + (square[1] as u128) * 0x1_0000_0000_0000_0000
    }
}

/// The raw ratio of a 160-bit square-root price fits in 128 bits.
pub proof fn lemma_raw_ratio_fits(sqrt_price: nat)
    requires
        sqrt_price < sqrt_price_bound(),
    ensures
        raw_ratio_of(sqrt_price) <= u128::MAX,
{
    let q = integer_part_of(sqrt_price);
    assert(q * q < 0x1_0000_0000_0000_0000_0000_0000_0000_0000) by (nonlinear_arith)
        requires
            0 <= q < 0x1_0000_0000_0000_0000,
    ;
}

/// Truncation brings the raw ratio to zero exactly for the square-root
/// prices below one, that is below `Q96`.
pub proof fn lemma_raw_ratio_is_zero_below_one(sqrt_price: nat)
    ensures
        raw_ratio_of(sqrt_price) == 0 <==> sqrt_price < Q96,
{
    let q = integer_part_of(sqrt_price);
    assert(q * q == 0 <==> q == 0) by (nonlinear_arith)
        requires
            q >= 0,
    ;
}

} // verus!
