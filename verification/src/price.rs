//! Exact prices and the conversion from a pool's square-root price.
//!
//! A price is never rounded. It is kept as an integer mantissa, a power of
//! ten, and a flag that says whether the reciprocal is meant; its meaning is
//! the real number given by [`DerivedPrice::value`].

use crate::sqrt_price::{
    lemma_raw_ratio_fits,
    lemma_raw_ratio_is_zero_below_one,
    raw_ratio_of,
    SqrtPriceX96,
};
use vstd::prelude::*;

verus! {

/// Ten to the power `e`, for any integer exponent.
pub open spec fn pow10(e: int) -> real
    decreases (if e >= 0 { e } else { -e }),
{
    if e == 0 {
        1real
    } else if e > 0 {
        10real * pow10(e - 1)
    } else {
        pow10(e + 1) / 10real
    }
}

/// Why a square-root price has no price.
#[derive(Clone, Copy, Debug, PartialEq, Eq, Structural)]
pub enum ConversionError {
    /// The square-root price is zero: the pool holds no price yet.
    ZeroSqrtPrice,
    /// The reciprocal of a zero ratio was asked for.
    ReciprocalOfZero,
}

/// How many units of the quote token equal one unit of the base token.
///
/// The value is `mantissa * 10^exponent`, or one divided by that when
/// `inverted` is set.
#[derive(Clone, Copy, Debug, PartialEq, Eq, Structural)]
pub struct DerivedPrice {
    pub mantissa: u128,
    pub exponent: i16,
    pub inverted: bool,
}

impl DerivedPrice {
    /// A price is well formed when it is a finite number: an inverted price
    /// has a mantissa other than zero.
    pub open spec fn wf(&self) -> bool {
        self.inverted ==> self.mantissa > 0
    }

    /// The mantissa scaled by its power of ten.
    pub open spec fn scaled(&self) -> real {
        (self.mantissa as real) * pow10(self.exponent as int)
    }

    /// The number that a well-formed price denotes.
    pub open spec fn value(&self) -> real {
        if self.inverted {
            1real / self.scaled()
        } else {
            self.scaled()
        }
    }

    /// The same mantissa and exponent with the opposite orientation.
    pub open spec fn flipped(&self) -> DerivedPrice {
        DerivedPrice { mantissa: self.mantissa, exponent: self.exponent, inverted: !self.inverted }
    }

    /// The reciprocal price, which swaps the roles of base and quote token.
    /// Fails exactly when the mantissa is zero.
    pub fn reciprocal(&self) -> (r: Result<DerivedPrice, ConversionError>)
        ensures
            self.mantissa == 0 ==> r == Err::<DerivedPrice, ConversionError>(
                ConversionError::ReciprocalOfZero,
            ),
            self.mantissa != 0 ==> r == Ok::<DerivedPrice, ConversionError>(self.flipped()),
    {
        if self.mantissa == 0 {
            Err(ConversionError::ReciprocalOfZero)
        } else {
            Ok(DerivedPrice { mantissa: self.mantissa, exponent: self.exponent, inverted: !self.inverted })
        }
    }
}

/// The difference of the two tokens' decimal precisions, token1 minus token0.
pub open spec fn decimal_delta(token0_decimals: u8, token1_decimals: u8) -> int {
    token1_decimals - token0_decimals
}

/// What [`convert`] returns.
///
/// The raw ratio is scaled by ten to the power of the decimal delta, in
/// either direction, and inverted when token0 is the reference currency. A
/// zero square-root price has no price, and neither has the reciprocal of a
/// ratio that truncation has brought to zero.
pub open spec fn convert_spec(
    sqrt_price: nat,
    token0_decimals: u8,
    token1_decimals: u8,
    token0_is_reference: bool,
) -> Result<DerivedPrice, ConversionError> {
    if sqrt_price == 0 {
        Err(ConversionError::ZeroSqrtPrice)
    } else if token0_is_reference && raw_ratio_of(sqrt_price) == 0 {
        Err(ConversionError::ReciprocalOfZero)
    } else {
        Ok(
            DerivedPrice {
                mantissa: raw_ratio_of(sqrt_price) as u128,
                exponent: decimal_delta(token0_decimals, token1_decimals) as i16,
                inverted: token0_is_reference,
            },
        )
    }
}

/// Converts a pool's square-root price into the price of the base token in
/// units of the quote token.
pub fn convert(
    sqrt_price: &SqrtPriceX96,
    token0_decimals: u8,
    token1_decimals: u8,
    token0_is_reference: bool,
) -> (r: Result<DerivedPrice, ConversionError>)
    ensures
        r == convert_spec(sqrt_price@, token0_decimals, token1_decimals, token0_is_reference),
        sqrt_price@ == 0 <==> r == Err::<DerivedPrice, ConversionError>(
            ConversionError::ZeroSqrtPrice,
        ),
        r matches Ok(price) ==> price.wf(),
{
    if sqrt_price.is_zero() {
        return Err(ConversionError::ZeroSqrtPrice);
    }
    let ratio = sqrt_price.raw_ratio();
    if token0_is_reference && ratio == 0 {
        return Err(ConversionError::ReciprocalOfZero);
    }
    let exponent: i16 = token1_decimals as i16 - token0_decimals as i16;
    Ok(DerivedPrice { mantissa: ratio, exponent, inverted: token0_is_reference })
}

/// Every power of ten is positive.
pub proof fn lemma_pow10_positive(e: int)
    ensures
        pow10(e) > 0real,
    decreases (if e >= 0 { e } else { -e }),
{
    if e == 0 {
    } else if e > 0 {
        lemma_pow10_positive(e - 1);
        assert(10real * pow10(e - 1) > 0real) by (nonlinear_arith)
            requires
                pow10(e - 1) > 0real,
        ;
    } else {
        lemma_pow10_positive(e + 1);
        assert(pow10(e + 1) / 10real > 0real) by (nonlinear_arith)
            requires
                pow10(e + 1) > 0real,
        ;
    }
}

/// A well-formed price is a non-negative number.
pub proof fn lemma_value_non_negative(price: DerivedPrice)
    requires
        price.wf(),
    ensures
        price.value() >= 0real,
        price.mantissa > 0 ==> price.value() > 0real,
{
    let m = price.mantissa as real;
    let p = pow10(price.exponent as int);
    lemma_pow10_positive(price.exponent as int);
    assert(m * p >= 0real && (m > 0real ==> m * p > 0real)) by (nonlinear_arith)
        requires
            m >= 0real,
            p > 0real,
    ;
    if price.inverted {
        let s = price.scaled();
        assert(1real / s > 0real) by (nonlinear_arith)
            requires
                s > 0real,
        ;
    }
}

/// Inverting twice gives back the price that one started from.
pub proof fn lemma_reciprocal_involutive(price: DerivedPrice)
    ensures
        price.flipped().flipped() == price,
{
}

/// A price and its reciprocal multiply to one.
pub proof fn lemma_reciprocal_product(price: DerivedPrice)
    requires
        price.mantissa > 0,
    ensures
        price.value() * price.flipped().value() == 1real,
{
    let s = price.scaled();
    assert(price.flipped().scaled() == s);
    lemma_value_non_negative(DerivedPrice { inverted: false, ..price });
    assert(s > 0real);
    assert(s * (1real / s) == 1real && (1real / s) * s == 1real) by (nonlinear_arith)
        requires
            s > 0real,
    ;
}

/// A square-root price other than zero has a price, which is a finite number
/// and not negative: the raw ratio scaled by ten to the decimal delta, or
/// the reciprocal of that when token0 is the reference currency. The one
/// exception is the reciprocal of a raw ratio of zero, which no number is.
pub proof fn lemma_convert_value(
    sqrt_price: SqrtPriceX96,
    token0_decimals: u8,
    token1_decimals: u8,
    token0_is_reference: bool,
)
    requires
        sqrt_price@ != 0,
        token0_is_reference ==> raw_ratio_of(sqrt_price@) > 0,
    ensures
        convert_spec(sqrt_price@, token0_decimals, token1_decimals, token0_is_reference) matches Ok(
            price,
        ) && ({
            let scaled = (raw_ratio_of(sqrt_price@) as real) * pow10(
                decimal_delta(token0_decimals, token1_decimals),
            );
            &&& price.wf()
            &&& price.value() >= 0real
            &&& price.value() == if token0_is_reference {
                1real / scaled
            } else {
                scaled
            }
        }),
{
    sqrt_price.lemma_bounded();
    lemma_raw_ratio_fits(sqrt_price@);
    let price = convert_spec(
        sqrt_price@,
        token0_decimals,
        token1_decimals,
        token0_is_reference,
    )->Ok_0;
    lemma_value_non_negative(price);
}

/// With equal decimal precisions and token1 as the reference currency, the
/// price is the raw ratio itself, unscaled.
pub proof fn lemma_convert_equal_decimals(sqrt_price: SqrtPriceX96, decimals: u8)
    requires
        sqrt_price@ != 0,
    ensures
        convert_spec(sqrt_price@, decimals, decimals, false) matches Ok(price) && price.value()
            == raw_ratio_of(sqrt_price@) as real,
{
    sqrt_price.lemma_bounded();
    lemma_raw_ratio_fits(sqrt_price@);
    let price = convert_spec(sqrt_price@, decimals, decimals, false)->Ok_0;
    let m = price.mantissa as real;
    assert(pow10(0) == 1real);
    assert(m * 1real == m) by (nonlinear_arith);
}

/// Converting one pool state with token0 as the reference currency and with
/// token1 as the reference currency gives two prices that are reciprocal:
/// each is the other inverted, and their product is one. This holds for
/// every state whose raw ratio is not zero; a ratio of zero has no
/// reciprocal.
pub proof fn lemma_convert_swapped_reference(
    sqrt_price: SqrtPriceX96,
    token0_decimals: u8,
    token1_decimals: u8,
)
    requires
        raw_ratio_of(sqrt_price@) > 0,
    ensures
        convert_spec(sqrt_price@, token0_decimals, token1_decimals, true) matches Ok(inverse)
            && convert_spec(sqrt_price@, token0_decimals, token1_decimals, false) matches Ok(
            direct,
        ) && inverse == direct.flipped() && direct == inverse.flipped() && inverse.value()
            * direct.value() == 1real,
{
    sqrt_price.lemma_bounded();
    lemma_raw_ratio_fits(sqrt_price@);
    lemma_raw_ratio_is_zero_below_one(sqrt_price@);
    let direct = convert_spec(sqrt_price@, token0_decimals, token1_decimals, false)->Ok_0;
    lemma_reciprocal_product(direct);
    let a = direct.value();
    let b = direct.flipped().value();
    assert(b * a == 1real) by (nonlinear_arith)
        requires
            a * b == 1real,
    ;
}

} // verus!
