//! Exact decimals as the store receives them.

use crate::amount::{
    digits_value, is_digit_text, lemma_decimal_text_is_digit_text, lemma_decimal_text_round_trip,
    lemma_four_limbs, lemma_limb_weight_grows, lemma_limbs_value_lower_bound,
    lemma_limbs_value_zero_tail, limbs_value, render_u256, render_u64, U256,
};
use std::str::FromStr;
use vstd::prelude::*;

verus! {

/// The sign of a decimal's unscaled integer.
#[derive(Clone, Copy, Debug, PartialEq, Eq, Structural)]
pub enum Sign {
    Minus,
    Zero,
    Plus,
}

/// An arbitrary-precision decimal: a signed integer of any size, given as a
/// sign and little-endian base-2^64 limbs, and the number of its digits that
/// stand after the decimal point.
#[derive(Clone, Debug, PartialEq, Eq)]
pub struct Decimal {
    pub sign: Sign,
    pub magnitude: Vec<u64>,
    pub scale: i64,
}

/// What a decimal is: the number `unscaled / 10^scale`.
pub ghost struct DecimalValue {
    pub unscaled: int,
    pub scale: int,
}

/// The decimal that is the whole number `n`, with nothing after the point.
pub open spec fn whole(n: nat) -> DecimalValue {
    DecimalValue { unscaled: n as int, scale: 0 }
}

/// The 256-bit quantity that a decimal is, if it is one: a whole number
/// with scale zero, not negative and below 2^256.
pub open spec fn as_u256(d: DecimalValue) -> Option<nat> {
    if d.scale == 0 && 0 <= d.unscaled <= U256::max() {
        Some(d.unscaled as nat)
    } else {
        None
    }
}

impl View for Decimal {
    type V = DecimalValue;

    open spec fn view(&self) -> DecimalValue {
        DecimalValue {
            unscaled: match self.sign {
                Sign::Minus => -(limbs_value(self.magnitude@) as int),
                Sign::Zero => 0,
                Sign::Plus => limbs_value(self.magnitude@) as int,
            },
            scale: self.scale as int,
        }
    }
}

/// A numeric value that could not be converted to a decimal.
#[derive(Clone, Copy, Debug, PartialEq, Eq, Structural)]
pub enum ConversionError {
    /// The decimal parser refused the rendered text. No quantity makes this
    /// happen: it is there so that a refusal would surface instead of being
    /// replaced by a made-up amount.
    Malformed,
}

/// The decimal parser's own error, `bigdecimal::ParseBigDecimalError`. It
/// is passed on unread.
#[verifier::external_type_specification]
#[verifier::external_body]
pub struct ExParseBigDecimalError(bigdecimal::ParseBigDecimalError);

/// Parses a run of decimal digits into a decimal.
///
/// Not proved: `BigDecimal::from_str` is taken to accept every non-empty run
/// of the digits `0` to `9` and to give the whole number that the digits
/// denote, with scale zero; `into_bigint_and_exponent` and `to_u64_digits`
/// are taken to hand out that number's sign, its base-2^64 limbs, least
/// significant first, and the scale.
#[verifier::external_body]
fn parse_digits(text: &str) -> (parsed: Result<Decimal, bigdecimal::ParseBigDecimalError>)
    requires
        is_digit_text(text@),
    ensures
        parsed is Ok,
        parsed->Ok_0@ == whole(digits_value(text@)),
{
    let (unscaled, scale) = sqlx::types::BigDecimal::from_str(text)?.into_bigint_and_exponent();
    let (sign, magnitude) = unscaled.to_u64_digits();
    let sign = match sign {
        bigdecimal::num_bigint::Sign::Minus => Sign::Minus,
        bigdecimal::num_bigint::Sign::NoSign => Sign::Zero,
        bigdecimal::num_bigint::Sign::Plus => Sign::Plus,
    };
    Ok(Decimal { sign, magnitude, scale })
}

/// Converts a 256-bit quantity to a decimal through its base-10 text, so
/// that the decimal is exactly the quantity.
pub fn u256_decimal(src: U256) -> (converted: Result<Decimal, ConversionError>)
    ensures
        converted is Ok,
        converted->Ok_0@ == whole(src@),
{
    let text = render_u256(src);
    proof {
        lemma_decimal_text_is_digit_text(src@);
        lemma_decimal_text_round_trip(src@);
    }
    match parse_digits(text.as_str()) {
        Ok(d) => Ok(d),
        Err(_) => Err(ConversionError::Malformed),
    }
}

/// Converts a block height to a decimal through its base-10 text, so that
/// the decimal is exactly the height.
pub fn u64_decimal(src: u64) -> (converted: Result<Decimal, ConversionError>)
    ensures
        converted is Ok,
        converted->Ok_0@ == whole(src as nat),
{
    let text = render_u64(src);
    proof {
        lemma_decimal_text_is_digit_text(src as nat);
        lemma_decimal_text_round_trip(src as nat);
    }
    match parse_digits(text.as_str()) {
        Ok(d) => Ok(d),
        Err(_) => Err(ConversionError::Malformed),
    }
}

impl Decimal {
    /// The decimal zero.
    pub fn zero() -> (d: Decimal)
        ensures
            d@ == whole(0),
    {
        Decimal { sign: Sign::Zero, magnitude: Vec::new(), scale: 0 }
    }

    /// The limb at `index`, or zero past the last limb.
    fn limb(&self, index: usize) -> (limb: u64)
        ensures
            limb == if index < self.magnitude.len() {
                self.magnitude[index as int]
            } else {
                0
            },
    {
        if index < self.magnitude.len() {
            self.magnitude[index]
        } else {
            0
        }
    }

    /// Reads the decimal back as a 256-bit quantity.
    pub fn to_u256(&self) -> (quantity: Option<U256>)
        ensures
            match quantity {
                Some(v) => as_u256(self@) == Some(v@),
                None => as_u256(self@) is None,
            },
    {
        if self.scale != 0 {
            return None;
        }
        let len = self.magnitude.len();
        let mut high_zero = true;
        let mut i: usize = 4;
        while i < len
            invariant
                4 <= i,
                len == self.magnitude.len(),
                high_zero <==> forall|j: int| 4 <= j < i && j < len ==> self.magnitude[j] == 0,
            decreases len - i,
        {
            if self.magnitude[i] != 0 {
                high_zero = false;
            }
            i += 1;
        }
        let low = U256 { limbs: [self.limb(0), self.limb(1), self.limb(2), self.limb(3)] };
        let low_zero = low.limbs[0] == 0 && low.limbs[1] == 0 && low.limbs[2] == 0 && low.limbs[3]
            == 0;
        proof {
            let limbs = self.magnitude@;
            lemma_four_limbs(low.limbs@);
            if high_zero {
                if len >= 4 {
                    lemma_limbs_value_zero_tail(limbs, 4);
                    assert(limbs.take(4) =~= low.limbs@);
                } else {
                    lemma_limbs_value_zero_tail(low.limbs@, len as int);
                    assert(low.limbs@.take(len as int) =~= limbs);
                }
            } else {
                let j = choose|j: int| 4 <= j < len && limbs[j] != 0;
                lemma_limbs_value_lower_bound(limbs, j);
                lemma_limb_weight_grows(4, j as nat);
            }
        }
        match self.sign {
            Sign::Zero => Some(U256::zero()),
            Sign::Plus => if high_zero {
                Some(low)
            } else {
                None
            },
            Sign::Minus => if high_zero && low_zero {
                Some(U256::zero())
            } else {
                None
            },
        }
    }
}

} // verus!
