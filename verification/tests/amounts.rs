use bigdecimal::num_bigint::{BigInt, BigUint, Sign as BigSign};
use bigdecimal::BigDecimal;
use block_indexer::amount::U256;
use block_indexer::decimal::{u256_decimal, u64_decimal, ConversionError, Decimal, Sign};
use std::str::FromStr;

const MAX_TEXT: &str =
    "115792089237316195423570985008687907853269984665640564039457584007913129639935";

fn from_text(text: &str) -> U256 {
    U256 { limbs: ethers::types::U256::from_dec_str(text).unwrap().0 }
}

fn as_big_decimal(d: &Decimal) -> BigDecimal {
    let sign = match d.sign {
        Sign::Minus => BigSign::Minus,
        Sign::Zero => BigSign::NoSign,
        Sign::Plus => BigSign::Plus,
    };
    let mut digits: Vec<u32> = Vec::new();
    for limb in d.magnitude.iter() {
        digits.push(*limb as u32);
        digits.push((*limb >> 32) as u32);
    }
    BigDecimal::new(BigInt::from_biguint(sign, BigUint::new(digits)), d.scale)
}

#[test]
fn zero_converts_to_the_zero_decimal() {
    let d = u256_decimal(U256::zero()).unwrap();
    assert_eq!(d, Decimal { sign: Sign::Zero, magnitude: vec![], scale: 0 });
    assert_eq!(d, Decimal::zero());
    assert_eq!(d.to_u256(), Some(U256::zero()));
}

#[test]
fn small_amount_converts_to_one_limb() {
    let d = u256_decimal(U256::from_u64(12345)).unwrap();
    assert_eq!(d, Decimal { sign: Sign::Plus, magnitude: vec![12345], scale: 0 });
}

#[test]
fn maximum_amount_round_trips() {
    let max = U256 { limbs: [u64::MAX; 4] };
    assert_eq!(max, from_text(MAX_TEXT));
    let d = u256_decimal(max).unwrap();
    assert_eq!(d, Decimal { sign: Sign::Plus, magnitude: vec![u64::MAX; 4], scale: 0 });
    assert_eq!(d.to_u256(), Some(max));
    assert_eq!(as_big_decimal(&d), BigDecimal::from_str(MAX_TEXT).unwrap());
}

#[test]
fn amounts_beyond_float_precision_round_trip() {
    for text in [
        "1",
        "9",
        "10",
        "9007199254740993",
        "18446744073709551615",
        "18446744073709551616",
        "1000000000000000000000000000001",
        "340282366920938463463374607431768211456",
        "57896044618658097711785492504343953926634992332820282019728792003956564819968",
    ] {
        let v = from_text(text);
        let d = u256_decimal(v).unwrap();
        assert_eq!(d.scale, 0);
        assert_eq!(d.to_u256(), Some(v), "{}", text);
        assert_eq!(as_big_decimal(&d), BigDecimal::from_str(text).unwrap(), "{}", text);
        assert_eq!(as_big_decimal(&d).to_string(), text);
    }
}

#[test]
fn two_limbs_keep_their_order() {
    // 2^64 + 7
    let v = U256 { limbs: [7, 1, 0, 0] };
    let d = u256_decimal(v).unwrap();
    assert_eq!(d.magnitude, vec![7, 1]);
    assert_eq!(as_big_decimal(&d).to_string(), "18446744073709551623");
}

#[test]
fn small_quantities_fill_the_lowest_limb() {
    assert_eq!(U256::from_u64(5), U256 { limbs: [5, 0, 0, 0] });
    assert_eq!(U256::from_u64(0), U256::zero());
    assert_eq!(U256::zero(), U256 { limbs: [0; 4] });
}

#[test]
fn height_converts_exactly() {
    assert_eq!(
        u64_decimal(13217541).unwrap(),
        Decimal { sign: Sign::Plus, magnitude: vec![13217541], scale: 0 }
    );
    assert_eq!(u64_decimal(0).unwrap(), Decimal::zero());
    assert_eq!(
        u64_decimal(u64::MAX).unwrap(),
        Decimal { sign: Sign::Plus, magnitude: vec![u64::MAX], scale: 0 }
    );
    assert_eq!(as_big_decimal(&u64_decimal(u64::MAX).unwrap()).to_string(), "18446744073709551615");
}

#[test]
fn conversion_never_reports_malformed_text() {
    for limbs in [[0, 0, 0, 0], [1, 0, 0, 0], [0, 0, 0, 1], [u64::MAX; 4], [9, 8, 7, 6]] {
        assert_ne!(u256_decimal(U256 { limbs }), Err(ConversionError::Malformed));
    }
}

#[test]
fn reading_back_refuses_what_is_no_quantity() {
    let negative = Decimal { sign: Sign::Minus, magnitude: vec![1], scale: 0 };
    assert_eq!(negative.to_u256(), None);
    let scaled = Decimal { sign: Sign::Plus, magnitude: vec![15], scale: 1 };
    assert_eq!(scaled.to_u256(), None);
    let stretched = Decimal { sign: Sign::Plus, magnitude: vec![15], scale: -1 };
    assert_eq!(stretched.to_u256(), None);
    let too_large = Decimal { sign: Sign::Plus, magnitude: vec![0, 0, 0, 0, 1], scale: 0 };
    assert_eq!(too_large.to_u256(), None);
    let far_too_large = Decimal { sign: Sign::Plus, magnitude: vec![1, 2, 3, 4, 0, 0, 9], scale: 0 };
    assert_eq!(far_too_large.to_u256(), None);
}

#[test]
fn reading_back_accepts_padded_and_short_magnitudes() {
    let padded = Decimal { sign: Sign::Plus, magnitude: vec![1, 2, 3, 4, 0, 0], scale: 0 };
    assert_eq!(padded.to_u256(), Some(U256 { limbs: [1, 2, 3, 4] }));
    let short = Decimal { sign: Sign::Plus, magnitude: vec![1, 2], scale: 0 };
    assert_eq!(short.to_u256(), Some(U256 { limbs: [1, 2, 0, 0] }));
    let minus_nothing = Decimal { sign: Sign::Minus, magnitude: vec![0, 0], scale: 0 };
    assert_eq!(minus_nothing.to_u256(), Some(U256::zero()));
    let minus_high = Decimal { sign: Sign::Minus, magnitude: vec![0, 0, 0, 0, 1], scale: 0 };
    assert_eq!(minus_high.to_u256(), None);
    let no_sign = Decimal { sign: Sign::Zero, magnitude: vec![7], scale: 0 };
    assert_eq!(no_sign.to_u256(), Some(U256::zero()));
}
