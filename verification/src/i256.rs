//! Two's complement reading of 256-bit words.

use vstd::prelude::*;
use vstd::arithmetic::power2::*;
use core::cmp::Ordering;
use crate::u256::{U256, lemma_value_bound, lemma_limb_powers};

verus! {

/// The signed number a word stands for in two's complement.
pub open spec fn i256_value(x: U256) -> int {
    if x@ >= pow2(255) {
        x@ - pow2(256)
    } else {
        x@ as int
    }
}

/// The sign of a two's complement word.
#[derive(Clone, Copy, Debug, PartialEq, Eq, Structural)]
pub enum Sign {
    Minus,
    Zero,
    Plus,
}

/// The sign of a signed number.
pub open spec fn sign_of(v: int) -> Sign {
    if v < 0 {
        Sign::Minus
    } else if v == 0 {
        Sign::Zero
    } else {
        Sign::Plus
    }
}

/// The sign of `val` read as a two's complement number.
pub fn i256_sign(val: &U256) -> (r: Sign)
    ensures
        r == sign_of(i256_value(*val)),
        r == Sign::Minus <==> val@ >= pow2(255),
        r == Sign::Zero <==> val@ == 0,
        r == Sign::Plus <==> 0 < val@ < pow2(255),
{
    proof {
        lemma_value_bound(*val);
        lemma_limb_powers();
    }
    if val.sign_bit() {
        Sign::Minus
    } else if val.is_zero() {
        Sign::Zero
    } else {
        Sign::Plus
    }
}

/// Two's complement negation.
pub fn two_compl(op: U256) -> (r: U256)
    ensures
        r@ == (pow2(256) - op@) % (pow2(256) as int),
{
    op.wrapping_neg()
}

/// Replaces `op` by its two's complement negation.
pub fn two_compl_mut(op: &mut U256)
    ensures
        final(op)@ == (pow2(256) - old(op)@) % (pow2(256) as int),
{
    *op = two_compl(*op);
}

/// The sign of `val`; a negative `val` is replaced by its magnitude.
pub fn i256_sign_compl(val: &mut U256) -> (r: Sign)
    ensures
        r == sign_of(i256_value(*old(val))),
        r == Sign::Minus ==> final(val)@ == -i256_value(*old(val)),
        r != Sign::Minus ==> *final(val) == *old(val),
{
    let sign = i256_sign(val);
    if let Sign::Minus = sign {
        two_compl_mut(val);
        proof {
            lemma_value_bound(*old(val));
            lemma_limb_powers();
            vstd::arithmetic::div_mod::lemma_small_mod(
                (pow2(256) - old(val)@) as nat,
                pow2(256),
            );
        }
    }
    sign
}

/// Rank of a sign, in the order Minus < Zero < Plus.
fn sign_rank(s: Sign) -> (r: u8)
    ensures
        r == (match s {
            Sign::Minus => 0u8,
            Sign::Zero => 1u8,
            Sign::Plus => 2u8,
        }),
{
    match s {
        Sign::Minus => 0,
        Sign::Zero => 1,
        Sign::Plus => 2,
    }
}

/// Signed comparison of two words.
pub fn i256_cmp(first: &U256, second: &U256) -> (r: Ordering)
    ensures
        (r == Ordering::Less) <==> (i256_value(*first) < i256_value(*second)),
        (r == Ordering::Equal) <==> (i256_value(*first) == i256_value(*second)),
        (r == Ordering::Greater) <==> (i256_value(*first) > i256_value(*second)),
{
    let first_rank = sign_rank(i256_sign(first));
    let second_rank = sign_rank(i256_sign(second));
    proof {
        lemma_value_bound(*first);
        lemma_value_bound(*second);
        lemma_limb_powers();
    }
    if first_rank < second_rank {
        Ordering::Less
    } else if first_rank > second_rank {
        Ordering::Greater
    } else if first.lt(second) {
        Ordering::Less
    } else if first.equals(second) {
        Ordering::Equal
    } else {
        Ordering::Greater
    }
}


/// Arithmetic shift right: the signed value divided by 2^shift, rounded
/// toward negative infinity, as a word.
pub open spec fn arithmetic_shr(x: U256, shift: nat) -> nat {
    ((i256_value(x) / (pow2(shift) as int)) % (pow2(256) as int)) as nat
}

/// For `m >= 1`, dividing `-m` by `d` and rounding down gives
/// `-((m - 1) / d + 1)`.
pub proof fn lemma_floor_div_negative(m: int, d: int)
    requires
        m >= 1,
        d >= 1,
    ensures
        (-m) / d == -((m - 1) / d + 1),
{
    let q = (m - 1) / d;
    let r = (m - 1) % d;
    vstd::arithmetic::div_mod::lemma_fundamental_div_mod(m - 1, d);
    vstd::arithmetic::div_mod::lemma_mod_bound(m - 1, d);
    assert(-m == (-(q + 1)) * d + (d - r - 1)) by (nonlinear_arith)
        requires
            m - 1 == d * q + r,
    ;
    vstd::arithmetic::div_mod::lemma_fundamental_div_mod_converse(-m, d, -(q + 1), d - r - 1);
}


/// The signed reading of a word lies in [-2^255, 2^255) and gives the word
/// back modulo 2^256.
pub proof fn law_i256_value_roundtrip(x: U256)
    ensures
        -pow2(255) <= i256_value(x) < pow2(255),
        i256_value(x) % (pow2(256) as int) == x@,
{
    lemma_value_bound(x);
    lemma_limb_powers();
    if x@ >= pow2(255) {
        vstd::arithmetic::div_mod::lemma_fundamental_div_mod_converse(
            i256_value(x),
            pow2(256) as int,
            -1,
            x@ as int,
        );
    } else {
        vstd::arithmetic::div_mod::lemma_small_mod(x@, pow2(256));
    }
}

/// On a word whose signed reading is not negative, the arithmetic shift
/// agrees with the logical one.
pub proof fn law_sar_of_nonnegative(x: U256, shift: nat)
    requires
        i256_value(x) >= 0,
    ensures
        arithmetic_shr(x, shift) == x@ / pow2(shift),
{
    lemma_value_bound(x);
    lemma_limb_powers();
    lemma_pow2_pos(shift);
    vstd::arithmetic::div_mod::lemma_div_is_ordered_by_denominator(x@ as int, 1, pow2(shift) as int);
    vstd::arithmetic::div_mod::lemma_small_mod(x@ / pow2(shift), pow2(256));
}

/// Shifting the all-ones word (minus one) arithmetically by any amount
/// gives minus one again.
pub proof fn law_sar_of_minus_one(x: U256, shift: nat)
    requires
        x@ == pow2(256) - 1,
    ensures
        arithmetic_shr(x, shift) == pow2(256) - 1,
{
    lemma_limb_powers();
    lemma_pow2_pos(shift);
    let d = pow2(shift) as int;
    assert(i256_value(x) == -1);
    vstd::arithmetic::div_mod::lemma_fundamental_div_mod_converse(-1, d, -1, d - 1);
    vstd::arithmetic::div_mod::lemma_fundamental_div_mod_converse(
        -1,
        pow2(256) as int,
        -1,
        pow2(256) - 1,
    );
}

/// The arithmetic shift rounds down: read back as a signed number, the
/// result `q` of shifting `x` by `shift` is the unique integer with
/// `q * 2^shift <= x < (q + 1) * 2^shift`.
pub proof fn law_sar_rounds_down(x: U256, shift: nat)
    ensures
        ({
            let q = arithmetic_shr(x, shift);
            let sq: int = if q >= pow2(255) { q - pow2(256) } else { q as int };
            &&& q < pow2(256)
            &&& sq * pow2(shift) <= i256_value(x)
            &&& i256_value(x) < sq * pow2(shift) + pow2(shift)
        }),
{
    let v = i256_value(x);
    let d = pow2(shift) as int;
    lemma_pow2_pos(shift);
    law_i256_value_roundtrip(x);
    lemma_limb_powers();
    let f = v / d;
    let r = v % d;
    vstd::arithmetic::div_mod::lemma_fundamental_div_mod(v, d);
    vstd::arithmetic::div_mod::lemma_mod_bound(v, d);
    let m = pow2(256) as int;
    let h = pow2(255) as int;
    if v >= 0 {
        assert(0 <= f <= v) by (nonlinear_arith)
            requires
                v == d * f + r,
                0 <= r < d,
                d >= 1,
                v >= 0,
        ;
        vstd::arithmetic::div_mod::lemma_small_mod(f as nat, m as nat);
    } else {
        assert(v <= f <= -1) by (nonlinear_arith)
            requires
                v == d * f + r,
                0 <= r < d,
                d >= 1,
                v < 0,
        ;
        vstd::arithmetic::div_mod::lemma_fundamental_div_mod_converse(f, m, -1, f + m);
    }
    assert(d * f == f * d) by (nonlinear_arith);
}

/// The sign of a number: Minus below zero, Zero at zero, Plus above.
pub proof fn law_sign_of(v: int)
    ensures
        sign_of(v) == Sign::Minus <==> v < 0,
        sign_of(v) == Sign::Zero <==> v == 0,
        sign_of(v) == Sign::Plus <==> v > 0,
{
}

} // verus!
