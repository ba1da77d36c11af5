//! 256-bit ledger amounts and their base-10 text.

use vstd::prelude::*;

verus! {

/// The digit character that stands for `d`, for `d` below ten.
pub open spec fn digit_char(d: nat) -> char {
    (48 + d) as u8 as char
}

/// The number that the digit character `c` stands for.
pub open spec fn digit_of(c: char) -> nat {
    (c as nat - 48) as nat
}

/// Whether `c` is one of `'0'..='9'`.
pub open spec fn is_digit(c: char) -> bool {
    48 <= c as nat <= 57
}

/// The canonical base-10 text of `n`: no sign, no leading zero, `"0"` for zero.
pub open spec fn decimal_text(n: nat) -> Seq<char>
    decreases n,
{
    if n < 10 {
        seq![digit_char(n)]
    } else {
        decimal_text(n / 10).push(digit_char(n % 10))
    }
}

/// Whether `text` is a non-empty run of decimal digits.
pub open spec fn is_digit_text(text: Seq<char>) -> bool {
    &&& text.len() > 0
    &&& forall|i: int| 0 <= i < text.len() ==> is_digit(#[trigger] text[i])
}

/// The number that a run of decimal digits denotes, most significant digit first.
pub open spec fn digits_value(text: Seq<char>) -> nat
    decreases text.len(),
{
    if text.len() == 0 {
        0
    } else {
        digits_value(text.drop_last()) * 10 + digit_of(text.last())
    }
}

/// A digit character is a digit and stands for the number it was made from.
pub proof fn lemma_digit_char(d: nat)
    requires
        d < 10,
    ensures
        is_digit(digit_char(d)),
        digit_of(digit_char(d)) == d,
{
}

/// The canonical text of any number is a non-empty run of digits.
pub proof fn lemma_decimal_text_is_digit_text(n: nat)
    ensures
        is_digit_text(decimal_text(n)),
    decreases n,
{
    if n < 10 {
        lemma_digit_char(n);
    } else {
        lemma_decimal_text_is_digit_text(n / 10);
        lemma_digit_char(n % 10);
    }
}

/// Reading the canonical text of `n` back as a number gives `n`.
pub proof fn lemma_decimal_text_round_trip(n: nat)
    ensures
        digits_value(decimal_text(n)) == n,
    decreases n,
{
    if n < 10 {
        lemma_digit_char(n);
        let t = decimal_text(n);
        assert(t.drop_last() =~= Seq::<char>::empty());
        assert(digits_value(t.drop_last()) == 0);
    } else {
        lemma_decimal_text_round_trip(n / 10);
        lemma_digit_char(n % 10);
        let t = decimal_text(n);
        assert(t.drop_last() =~= decimal_text(n / 10));
    }
}

/// The number that little-endian base-2^64 limbs denote.
pub open spec fn limbs_value(limbs: Seq<u64>) -> nat
    decreases limbs.len(),
{
    if limbs.len() == 0 {
        0
    } else {
        limbs_value(limbs.drop_last()) + limbs.last() as nat * limb_weight(
            (limbs.len() - 1) as nat,
        )
    }
}

/// The weight of the limb at `index`: 2^64 raised to `index`.
pub open spec fn limb_weight(index: nat) -> nat
    decreases index,
{
    if index == 0 {
        1
    } else {
        0x1_0000_0000_0000_0000 * limb_weight((index - 1) as nat)
    }
}

/// An unsigned 256-bit ledger quantity, held as four 64-bit limbs, least
/// significant first.
#[derive(Clone, Copy, Debug, PartialEq, Eq)]
pub struct U256 {
    pub limbs: [u64; 4],
}

impl View for U256 {
    type V = nat;

    open spec fn view(&self) -> nat {
        limbs_value(self.limbs@)
    }
}

impl U256 {
    /// The largest value the type holds, 2^256 - 1.
    pub open spec fn max() -> nat {
        (limb_weight(4) - 1) as nat
    }

    /// The quantity zero.
    pub fn zero() -> (v: U256)
        ensures
            v@ == 0,
    {
        let v = U256 { limbs: [0, 0, 0, 0] };
        proof {
            lemma_four_limbs(v.limbs@);
        }
        v
    }

    /// The quantity `n`.
    pub fn from_u64(n: u64) -> (v: U256)
        ensures
            v@ == n,
    {
        let v = U256 { limbs: [n, 0, 0, 0] };
        proof {
            lemma_four_limbs(v.limbs@);
        }
        v
    }
}

/// Four limbs denote `l0 + l1 * 2^64 + l2 * 2^128 + l3 * 2^192`, which is at
/// most 2^256 - 1.
pub proof fn lemma_four_limbs(limbs: Seq<u64>)
    requires
        limbs.len() == 4,
    ensures
        limbs_value(limbs) == limbs[0] + limbs[1] * 0x1_0000_0000_0000_0000
            + limbs[2] * 0x1_0000_0000_0000_0000_0000_0000_0000_0000
            + limbs[3] * 0x1_0000_0000_0000_0000_0000_0000_0000_0000_0000_0000_0000_0000,
        limbs_value(limbs) <= U256::max(),
        limb_weight(4)
            == 0x1_0000_0000_0000_0000_0000_0000_0000_0000_0000_0000_0000_0000_0000_0000_0000_0000,
{
    let s3 = limbs.drop_last();
    let s2 = s3.drop_last();
    let s1 = s2.drop_last();
    let s0 = s1.drop_last();
    assert(limb_weight(0) == 1);
    assert(limb_weight(1) == 0x1_0000_0000_0000_0000);
    assert(limb_weight(2) == 0x1_0000_0000_0000_0000_0000_0000_0000_0000);
    assert(limb_weight(3) == 0x1_0000_0000_0000_0000_0000_0000_0000_0000_0000_0000_0000_0000);
    assert(limbs_value(s0) == 0);
    assert(limbs_value(s1) == limbs[0]);
    assert(limbs_value(s2) == limbs_value(s1) + limbs[1] * limb_weight(1));
    assert(limbs_value(s3) == limbs_value(s2) + limbs[2] * limb_weight(2));
    assert(limbs_value(limbs) == limbs_value(s3) + limbs[3] * limb_weight(3));
}

/// Two quantities with the same value have the same limbs.
pub proof fn lemma_u256_value_determines_limbs(a: U256, b: U256)
    requires
        a@ == b@,
    ensures
        a.limbs@ == b.limbs@,
{
    lemma_four_limbs(a.limbs@);
    lemma_four_limbs(b.limbs@);
    let base = 0x1_0000_0000_0000_0000int;
    let (a0, a1, a2, a3) = (
        a.limbs@[0] as int,
        a.limbs@[1] as int,
        a.limbs@[2] as int,
        a.limbs@[3] as int,
    );
    let (b0, b1, b2, b3) = (
        b.limbs@[0] as int,
        b.limbs@[1] as int,
        b.limbs@[2] as int,
        b.limbs@[3] as int,
    );
    assert(a@ == a0 + base * (a1 + base * (a2 + base * a3))) by (nonlinear_arith)
        requires
            base == 0x1_0000_0000_0000_0000int,
            a@ == a0 + a1 * 0x1_0000_0000_0000_0000 + a2
                * 0x1_0000_0000_0000_0000_0000_0000_0000_0000 + a3
                * 0x1_0000_0000_0000_0000_0000_0000_0000_0000_0000_0000_0000_0000,
    ;
    assert(b@ == b0 + base * (b1 + base * (b2 + base * b3))) by (nonlinear_arith)
        requires
            base == 0x1_0000_0000_0000_0000int,
            b@ == b0 + b1 * 0x1_0000_0000_0000_0000 + b2
                * 0x1_0000_0000_0000_0000_0000_0000_0000_0000 + b3
                * 0x1_0000_0000_0000_0000_0000_0000_0000_0000_0000_0000_0000_0000,
    ;
    lemma_low_digit_unique(a0, a1 + base * (a2 + base * a3), b0, b1 + base * (b2 + base * b3), base);
    lemma_low_digit_unique(a1, a2 + base * a3, b1, b2 + base * b3, base);
    lemma_low_digit_unique(a2, a3, b2, b3, base);
    assert(a.limbs@ =~= b.limbs@);
}

/// A number has one lowest digit and one rest in any base.
proof fn lemma_low_digit_unique(x: int, rest_x: int, y: int, rest_y: int, base: int)
    requires
        0 <= x < base,
        0 <= y < base,
        x + base * rest_x == y + base * rest_y,
    ensures
        x == y,
        rest_x == rest_y,
{
    assert(x == y && rest_x == rest_y) by (nonlinear_arith)
        requires
            0 <= x < base,
            0 <= y < base,
            x + base * rest_x == y + base * rest_y,
    ;
}

/// Every limb weight is at least one, and a later limb weighs no less than
/// an earlier one.
pub proof fn lemma_limb_weight_grows(low: nat, high: nat)
    requires
        low <= high,
    ensures
        1 <= limb_weight(low) <= limb_weight(high),
    decreases high,
{
    if high == 0 {
    } else if low == high {
        lemma_limb_weight_grows(0, (high - 1) as nat);
    } else {
        lemma_limb_weight_grows(low, (high - 1) as nat);
    }
}

/// Limbs that are zero from index `keep` on add nothing to the value.
pub proof fn lemma_limbs_value_zero_tail(limbs: Seq<u64>, keep: int)
    requires
        0 <= keep <= limbs.len(),
        forall|j: int| keep <= j < limbs.len() ==> limbs[j] == 0,
    ensures
        limbs_value(limbs) == limbs_value(limbs.take(keep)),
    decreases limbs.len(),
{
    if keep == limbs.len() {
        assert(limbs.take(keep) =~= limbs);
    } else {
        lemma_limbs_value_zero_tail(limbs.drop_last(), keep);
        assert(limbs.drop_last().take(keep) =~= limbs.take(keep));
    }
}

/// A limb that is not zero makes the value at least that limb's weight.
pub proof fn lemma_limbs_value_lower_bound(limbs: Seq<u64>, index: int)
    requires
        0 <= index < limbs.len(),
        limbs[index] != 0,
    ensures
        limbs_value(limbs) >= limb_weight(index as nat),
    decreases limbs.len(),
{
    if index == limbs.len() - 1 {
        let w = limb_weight(index as nat);
        let l = limbs.last() as nat;
        assert(l * w >= w) by (nonlinear_arith)
            requires
                l >= 1,
        ;
    } else {
        lemma_limbs_value_lower_bound(limbs.drop_last(), index);
    }
}

/// The base-10 text of a 256-bit quantity.
///
/// Not proved: the `Display` impl of `ethers::types::U256` is taken to write
/// the value in base 10 with no sign, padding or leading zero, and `"0"` for
/// zero.
#[verifier::external_body]
pub(crate) fn render_u256(amount: U256) -> (text: String)
    ensures
        text@ == decimal_text(amount@),
{
    ethers::types::U256(amount.limbs).to_string()
}

/// The base-10 text of a block height.
///
/// Not proved: the `Display` impl of `ethers::types::U64` is taken to write
/// the value in base 10 with no sign, padding or leading zero, and `"0"` for
/// zero.
#[verifier::external_body]
pub(crate) fn render_u64(height: u64) -> (text: String)
    ensures
        text@ == decimal_text(height as nat),
{
    ethers::types::U64([height]).to_string()
}

} // verus!
