//! Unsigned 256-bit machine words, held as four 64-bit limbs.

use vstd::prelude::*;
use vstd::arithmetic::power2::*;
use vstd::arithmetic::div_mod::*;
use vstd::bits::*;

verus! {

/// 2^64, the base of a limb.
pub open spec fn limb_base() -> nat {
    0x1_0000_0000_0000_0000nat
}

/// A 256-bit unsigned machine word, stored as four 64-bit limbs,
/// least significant limb first.
#[derive(Clone, Copy, Debug, PartialEq, Eq)]
pub struct U256 {
    pub limbs: [u64; 4],
}

/// The limb at position `k`, or zero past the most significant limb.
pub open spec fn limb_at(limbs: [u64; 4], k: int) -> nat {
    if 0 <= k < 4 { limbs[k] as nat } else { 0 }
}

/// The number held by limbs `k..4`, read with limb `k` as the least significant.
pub open spec fn limbs_from(limbs: [u64; 4], k: nat) -> nat
    decreases 4 - k,
{
    if k >= 4 { 0 } else { limb_at(limbs, k as int) + limb_base() * limbs_from(limbs, k + 1) }
}

impl View for U256 {
    type V = nat;

    open spec fn view(&self) -> nat {
        limbs_from(self.limbs, 0)
    }
}

pub proof fn lemma_value_expanded(x: U256)
    ensures
        x@ == x.limbs[0] + 0x1_0000_0000_0000_0000nat * x.limbs[1]
            + 0x1_0000_0000_0000_0000_0000_0000_0000_0000nat * x.limbs[2]
            + 0x1_0000_0000_0000_0000_0000_0000_0000_0000_0000_0000_0000_0000nat * x.limbs[3],
{
    reveal_with_fuel(limbs_from, 5);
}


/// Concrete values of the powers of two that the limb layout uses.
pub proof fn lemma_limb_powers()
    ensures
        pow2(64) == 0x1_0000_0000_0000_0000nat,
        pow2(128) == 0x1_0000_0000_0000_0000_0000_0000_0000_0000nat,
        pow2(192) == 0x1_0000_0000_0000_0000_0000_0000_0000_0000_0000_0000_0000_0000nat,
        pow2(255) == 0x8000_0000_0000_0000_0000_0000_0000_0000_0000_0000_0000_0000_0000_0000_0000_0000nat,
        pow2(256) == 0x1_0000_0000_0000_0000_0000_0000_0000_0000_0000_0000_0000_0000_0000_0000_0000_0000nat,
{
    lemma2_to64();
    lemma_pow2_adds(64, 64);
    lemma_pow2_adds(128, 64);
    lemma_pow2_adds(192, 63);
    lemma_pow2_adds(192, 64);
    lemma2_to64_rest();
}

proof fn lemma_limbs_from_step(limbs: [u64; 4], k: nat)
    requires
        k < 4,
    ensures
        limbs_from(limbs, k) / limb_base() == limbs_from(limbs, k + 1),
        limbs_from(limbs, k) % limb_base() == limbs[k as int],
{
    lemma_fundamental_div_mod_converse(
        limbs_from(limbs, k) as int,
        limb_base() as int,
        limbs_from(limbs, k + 1) as int,
        limbs[k as int] as int,
    );
}

/// Limbs `k..4` hold a number below 2^(64 * (4 - k)).
proof fn lemma_limbs_from_bound(limbs: [u64; 4], k: nat)
    requires
        k <= 4,
    ensures
        limbs_from(limbs, k) < pow2((64 * (4 - k)) as nat),
    decreases 4 - k,
{
    if k == 4 {
        lemma2_to64();
    } else {
        lemma_limbs_from_bound(limbs, k + 1);
        let e = (64 * (4 - (k + 1))) as nat;
        lemma_pow2_adds(64, e);
        lemma2_to64();
        assert(64 + e == 64 * (4 - k));
        let rest = limbs_from(limbs, k + 1);
        let lo = limbs[k as int] as nat;
        assert(lo + limb_base() * rest < limb_base() * pow2(e)) by (nonlinear_arith)
            requires
                lo < limb_base(),
                rest < pow2(e),
        ;
    }
}

/// Dividing a word by 2^(64k) drops its `k` least significant limbs.
pub proof fn lemma_div_limb_power(x: U256, k: nat)
    requires
        k <= 4,
    ensures
        x@ / pow2(64 * k) == limbs_from(x.limbs, k),
    decreases k,
{
    if k == 0 {
        lemma2_to64();
        assert(64 * k == 0);
        assert(x@ / 1 == x@);
    } else {
        let j = (k - 1) as nat;
        lemma_div_limb_power(x, j);
        lemma_pow2_pos(64 * j);
        lemma_pow2_adds(64 * j, 64);
        lemma2_to64();
        assert(64 * j + 64 == 64 * k);
        lemma_div_denominator(x@ as int, pow2(64 * j) as int, limb_base() as int);
        lemma_limbs_from_step(x.limbs, j);
    }
}

/// Every word is below 2^256.
pub proof fn lemma_value_bound(x: U256)
    ensures
        x@ < pow2(256),
{
    lemma_limbs_from_bound(x.limbs, 0);
}


/// The 64 bits of `x` that start at bit `t`, seen through the two limbs
/// that hold them.
proof fn lemma_window(x: U256, j: nat, r: nat)
    requires
        j < 4,
        r < 64,
    ensures
        (x@ / pow2(64 * j + r)) % limb_base() == ((limb_at(x.limbs, j as int) + limb_base()
            * limb_at(x.limbs, (j + 1) as int)) / pow2(r)) % limb_base(),
{
    let b = limb_base();
    lemma2_to64();
    lemma_pow2_pos(r);
    lemma_pow2_pos(64 * j);
    lemma_pow2_adds(64 * j, r);
    lemma_div_denominator(x@ as int, pow2(64 * j) as int, pow2(r) as int);
    lemma_div_limb_power(x, j);
    let w = limb_at(x.limbs, j as int) + b * limb_at(x.limbs, (j + 1) as int);
    let t = limbs_from(x.limbs, j + 2);
    assert(limbs_from(x.limbs, j) == w + b * b * t) by {
        reveal_with_fuel(limbs_from, 3);
        assert(limbs_from(x.limbs, j) == limb_at(x.limbs, j as int) + b * limbs_from(x.limbs, j + 1));
        assert(limbs_from(x.limbs, j + 1) == limb_at(x.limbs, (j + 1) as int) + b * t);
        assert(b * (limb_at(x.limbs, (j + 1) as int) + b * t) == b * limb_at(x.limbs, (j + 1) as int) + b * b * t) by (nonlinear_arith);
    }
    let e = (128 - r) as nat;
    let f = (64 - r) as nat;
    lemma_pow2_adds(r, e);
    lemma_pow2_adds(64, f);
    lemma_pow2_adds(64, 64);
    assert(r + e == 128);
    assert(64 + f == e);
    let m = pow2(e) * t;
    assert(b * b * t == m * pow2(r)) by (nonlinear_arith)
        requires
            b * b == pow2(r) * pow2(e),
            m == pow2(e) * t,
    ;
    lemma_hoist_over_denominator(w as int, m as int, pow2(r));
    assert(m == b * (pow2(f) * t)) by (nonlinear_arith)
        requires
            pow2(e) == b * pow2(f),
            m == pow2(e) * t,
    ;
    lemma_mod_multiples_vanish((pow2(f) * t) as int, (w / pow2(r)) as int, b as int);
}

/// A word is determined by the limbs of the number it should hold.
pub proof fn lemma_from_digits(x: U256, f: nat)
    requires
        f < pow2(256),
        forall|i: int| 0 <= i < 4 ==> #[trigger] x.limbs[i] == (f / pow2((64 * i) as nat)) % limb_base(),
    ensures
        x@ == f,
{
    lemma_digits_from(x, f, 0);
    lemma2_to64();
    assert(f / 1 == f);
}

proof fn lemma_digits_from(x: U256, f: nat, k: nat)
    requires
        k <= 4,
        f < pow2(256),
        forall|i: int| 0 <= i < 4 ==> #[trigger] x.limbs[i] == (f / pow2((64 * i) as nat)) % limb_base(),
    ensures
        limbs_from(x.limbs, k) == f / pow2(64 * k),
    decreases 4 - k,
{
    lemma2_to64();
    lemma_pow2_pos(64 * k);
    if k == 4 {
        lemma_basic_div(f as int, pow2(256) as int);
    } else {
        lemma_digits_from(x, f, k + 1);
        lemma_pow2_adds(64 * k, 64);
        assert(64 * k + 64 == 64 * (k + 1));
        lemma_div_denominator(f as int, pow2(64 * k) as int, limb_base() as int);
        let y = f / pow2(64 * k);
        lemma_fundamental_div_mod(y as int, limb_base() as int);
        assert(x.limbs[k as int] == y % limb_base());
    }
}

/// Whatever is shifted past the top of a word is zero.
pub proof fn lemma_div_past_top(x: U256, t: nat)
    requires
        t >= 256,
    ensures
        x@ / pow2(t) == 0,
{
    lemma_value_bound(x);
    if t > 256 {
        lemma_pow2_strictly_increases(256, t);
    }
    lemma_basic_div(x@ as int, pow2(t) as int);
}

impl U256 {
    /// The 64 bits of the word that start at bit `t` (zero past the top).
    fn window(&self, t: usize) -> (r: u64)
        ensures
            r == (self@ / pow2(t as nat)) % limb_base(),
    {
        if t >= 256 {
            proof {
                lemma_div_past_top(*self, t as nat);
            }
            return 0;
        }
        let j: usize = t / 64;
        let rr: usize = t % 64;
        let lo: u128 = self.limbs[j] as u128;
        let hi: u128 = if j < 3 { self.limbs[j + 1] as u128 } else { 0 };
        let w: u128 = lo + hi * 0x1_0000_0000_0000_0000u128;
        let q: u128 = w >> (rr as u128);
        proof {
            lemma_u128_shr_is_div(w, rr as u128);
            lemma_window(*self, j as nat, rr as nat);
            assert(64 * j + rr == t);
        }
        (q % 0x1_0000_0000_0000_0000u128) as u64
    }
}


/// Each limb of a word is the matching base-2^64 digit of its value.
pub proof fn lemma_limb_is_digit(x: U256, i: nat)
    requires
        i < 4,
    ensures
        x.limbs[i as int] == (x@ / pow2(64 * i)) % limb_base(),
{
    lemma_div_limb_power(x, i);
    lemma_limbs_from_step(x.limbs, i);
}

/// Two words are equal exactly when their values are.
pub proof fn lemma_value_injective(x: U256, y: U256)
    ensures
        (x@ == y@) <==> (x == y),
{
    if x@ == y@ {
        lemma_limb_is_digit(x, 0);
        lemma_limb_is_digit(x, 1);
        lemma_limb_is_digit(x, 2);
        lemma_limb_is_digit(x, 3);
        lemma_limb_is_digit(y, 0);
        lemma_limb_is_digit(y, 1);
        lemma_limb_is_digit(y, 2);
        lemma_limb_is_digit(y, 3);
        assert(x.limbs =~= y.limbs);
    }
}

/// The digits of `X mod 2^256` are the low digits of `X`.
proof fn lemma_digit_of_wrapped(big: nat, i: nat)
    requires
        i < 4,
    ensures
        ((big % pow2(256)) / pow2(64 * i)) % limb_base() == (big / pow2(64 * i)) % limb_base(),
{
    let y = pow2(64 * i);
    let e = (256 - 64 * i) as nat;
    let z = pow2(e);
    let e2 = (192 - 64 * i) as nat;
    lemma2_to64();
    lemma_pow2_pos(64 * i);
    lemma_pow2_pos(e);
    lemma_pow2_pos(e2);
    lemma_pow2_adds(64 * i, e);
    lemma_pow2_adds(64, e2);
    assert(64 * i + e == 256);
    assert(64 + e2 == e);
    lemma_breakdown(big as int, y as int, z as int);
    lemma_pow2_pos(64 * i);
    lemma_mod_bound(big as int, y as int);
    lemma_fundamental_div_mod_converse(
        (big % pow2(256)) as int,
        y as int,
        ((big / y) % z) as int,
        (big % y) as int,
    );
    lemma_mod_mod((big / y) as int, limb_base() as int, pow2(e2) as int);
}

/// Schoolbook addition with an incoming carry `c_in`: the carries `c0..c3`
/// tie the limbs of `r` to the sum of `x` and `y`.
proof fn lemma_carry_chain(x: U256, y: U256, r: U256, c_in: int, c0: int, c1: int, c2: int, c3: int)
    requires
        x.limbs[0] + y.limbs[0] + c_in == c0 * 0x1_0000_0000_0000_0000int + r.limbs[0],
        x.limbs[1] + y.limbs[1] + c0 == c1 * 0x1_0000_0000_0000_0000int + r.limbs[1],
        x.limbs[2] + y.limbs[2] + c1 == c2 * 0x1_0000_0000_0000_0000int + r.limbs[2],
        x.limbs[3] + y.limbs[3] + c2 == c3 * 0x1_0000_0000_0000_0000int + r.limbs[3],
    ensures
        x@ + y@ + c_in == c3 * pow2(256) + r@,
{
    lemma_value_expanded(x);
    lemma_value_expanded(y);
    lemma_value_expanded(r);
    lemma_limb_powers();
}

proof fn lemma_not_limb(a: u64)
    ensures
        !a == 0xFFFF_FFFF_FFFF_FFFFu64 - a,
{
    assert(!a == 0xFFFF_FFFF_FFFF_FFFFu64 - a) by (bit_vector);
}

/// The word whose limbs are the bitwise and of the limbs of `a` and `b`.
pub open spec fn and_word(a: U256, b: U256) -> U256 {
    U256 {
        limbs: [
            a.limbs[0] & b.limbs[0],
            a.limbs[1] & b.limbs[1],
            a.limbs[2] & b.limbs[2],
            a.limbs[3] & b.limbs[3],
        ],
    }
}

/// The word whose limbs are the bitwise or of the limbs of `a` and `b`.
pub open spec fn or_word(a: U256, b: U256) -> U256 {
    U256 {
        limbs: [
            a.limbs[0] | b.limbs[0],
            a.limbs[1] | b.limbs[1],
            a.limbs[2] | b.limbs[2],
            a.limbs[3] | b.limbs[3],
        ],
    }
}

/// The word whose limbs are the bitwise exclusive or of the limbs of `a` and `b`.
pub open spec fn xor_word(a: U256, b: U256) -> U256 {
    U256 {
        limbs: [
            a.limbs[0] ^ b.limbs[0],
            a.limbs[1] ^ b.limbs[1],
            a.limbs[2] ^ b.limbs[2],
            a.limbs[3] ^ b.limbs[3],
        ],
    }
}

/// The word whose limbs are the bitwise complements of the limbs of `a`.
pub open spec fn not_word(a: U256) -> U256 {
    U256 { limbs: [!a.limbs[0], !a.limbs[1], !a.limbs[2], !a.limbs[3]] }
}

proof fn lemma_limb_laws(a: u64, b: u64)
    ensures
        !(!a) == a,
        a ^ a == 0,
        a & a == a,
        a | 0 == a,
        !(a & b) == (!a) | (!b),
        !(a | b) == (!a) & (!b),
{
    assert(!(!a) == a) by (bit_vector);
    assert(a ^ a == 0) by (bit_vector);
    assert(a & a == a) by (bit_vector);
    assert(a | 0 == a) by (bit_vector);
    assert(!(a & b) == (!a) | (!b)) by (bit_vector);
    assert(!(a | b) == (!a) & (!b)) by (bit_vector);
}

/// Bit `k` of the number `v`.
pub open spec fn bit_at(v: nat, k: nat) -> nat {
    (v / pow2(k)) % 2
}

/// Bit `r` of a 64-bit limb, read with shifts.
proof fn lemma_limb_bit(a: u64, r: nat)
    requires
        r < 64,
    ensures
        bit_at(a as nat, r) == ((a >> (r as u64)) & 1u64),
{
    lemma_u64_shr_is_div(a, r as u64);
    let y = a >> (r as u64);
    assert((y & 1u64) == y % 2) by (bit_vector);
}

/// Bit `r` of the and, or and exclusive or of two limbs, from the bits of
/// the limbs.
proof fn lemma_limb_bit_ops(a: u64, b: u64, r: nat)
    requires
        r < 64,
    ensures
        bit_at((a & b) as nat, r) == bit_at(a as nat, r) * bit_at(b as nat, r),
        bit_at((a | b) as nat, r) == bit_at(a as nat, r) + bit_at(b as nat, r) - bit_at(a as nat, r) * bit_at(b as nat, r),
        bit_at((a ^ b) as nat, r) == (bit_at(a as nat, r) + bit_at(b as nat, r)) % 2,
        bit_at((!a) as nat, r) == 1 - bit_at(a as nat, r),
{
    lemma_limb_bit(a, r);
    lemma_limb_bit(b, r);
    lemma_limb_bit(a & b, r);
    lemma_limb_bit(a | b, r);
    lemma_limb_bit(a ^ b, r);
    lemma_limb_bit(!a, r);
    let s = r as u64;
    assert(((a & b) >> s) & 1u64 == ((a >> s) & 1u64) * ((b >> s) & 1u64)) by (bit_vector)
        requires
            s < 64,
    ;
    assert(((a | b) >> s) & 1u64 == ((a >> s) & 1u64) + ((b >> s) & 1u64) - ((a >> s) & 1u64) * ((b >> s) & 1u64)) by (bit_vector)
        requires
            s < 64,
    ;
    assert(((a ^ b) >> s) & 1u64 == (((a >> s) & 1u64) + ((b >> s) & 1u64)) % 2) by (bit_vector)
        requires
            s < 64,
    ;
    assert(((!a) >> s) & 1u64 == 1 - ((a >> s) & 1u64)) by (bit_vector)
        requires
            s < 64,
    ;
}

/// Bit `k` of a word is bit `k mod 64` of limb `k / 64`.
pub proof fn lemma_word_bit(x: U256, k: nat)
    requires
        k < 256,
    ensures
        bit_at(x@, k) == bit_at(x.limbs[(k / 64) as int] as nat, k % 64),
{
    let j = k / 64;
    let r = k % 64;
    let b = limb_base();
    lemma_window(x, j, r);
    assert(64 * j + r == k);
    let y = x@ / pow2(k);
    let lo = limb_at(x.limbs, j as int);
    let hi = limb_at(x.limbs, (j + 1) as int);
    let w = (lo + b * hi) / pow2(r);
    lemma_mod_mod(y as int, 2, 0x8000_0000_0000_0000int);
    lemma_mod_mod(w as int, 2, 0x8000_0000_0000_0000int);
    lemma2_to64();
    lemma_pow2_pos(r);
    let e = (64 - r) as nat;
    let f = (63 - r) as nat;
    lemma_pow2_adds(r, e);
    lemma_pow2_adds(1, f);
    assert(r + e == 64);
    assert(1 + f == e);
    let m = pow2(e) * hi;
    assert(b * hi == m * pow2(r)) by (nonlinear_arith)
        requires
            b == pow2(r) * pow2(e),
            m == pow2(e) * hi,
    ;
    lemma_hoist_over_denominator(lo as int, m as int, pow2(r));
    assert(m == 2 * (pow2(f) * hi)) by (nonlinear_arith)
        requires
            pow2(e) == 2 * pow2(f),
            m == pow2(e) * hi,
    ;
    lemma_mod_multiples_vanish((pow2(f) * hi) as int, (lo / pow2(r)) as int, 2);
}

/// Limb `j` of each word that the bitwise operations build.
proof fn lemma_word_limbs(a: U256, b: U256, j: int)
    requires
        0 <= j < 4,
    ensures
        and_word(a, b).limbs[j] == a.limbs[j] & b.limbs[j],
        or_word(a, b).limbs[j] == a.limbs[j] | b.limbs[j],
        xor_word(a, b).limbs[j] == a.limbs[j] ^ b.limbs[j],
        not_word(a).limbs[j] == !a.limbs[j],
{
    if j == 0 {
    } else if j == 1 {
    } else if j == 2 {
    } else {
    }
}

/// AND, OR and XOR act bit by bit on the values: bit `k` of the result is
/// set when bit `k` is set in both operands (AND), in at least one (OR),
/// in exactly one (XOR); NOT flips every bit.
pub proof fn law_bitwise_bits(a: U256, b: U256, k: nat)
    requires
        k < 256,
    ensures
        bit_at(and_word(a, b)@, k) == bit_at(a@, k) * bit_at(b@, k),
        bit_at(or_word(a, b)@, k) == bit_at(a@, k) + bit_at(b@, k) - bit_at(a@, k) * bit_at(b@, k),
        bit_at(xor_word(a, b)@, k) == (bit_at(a@, k) + bit_at(b@, k)) % 2,
        bit_at(not_word(a)@, k) == 1 - bit_at(a@, k),
{
    let j = (k / 64) as int;
    lemma_word_bit(a, k);
    lemma_word_bit(b, k);
    lemma_word_bit(and_word(a, b), k);
    lemma_word_bit(or_word(a, b), k);
    lemma_word_bit(xor_word(a, b), k);
    lemma_word_bit(not_word(a), k);
    lemma_word_limbs(a, b, j);
    lemma_limb_bit_ops(a.limbs[j], b.limbs[j], k % 64);
}

/// AND and OR do not depend on the order of their operands, and AND never
/// exceeds either operand.
pub proof fn law_and_or_commute(a: U256, b: U256)
    ensures
        and_word(a, b) == and_word(b, a),
        or_word(a, b) == or_word(b, a),
        xor_word(a, b) == xor_word(b, a),
        and_word(a, b)@ <= a@,
        and_word(a, b)@ <= b@,
{
    let a0 = a.limbs[0];
    let a1 = a.limbs[1];
    let a2 = a.limbs[2];
    let a3 = a.limbs[3];
    let b0 = b.limbs[0];
    let b1 = b.limbs[1];
    let b2 = b.limbs[2];
    let b3 = b.limbs[3];
    assert(a0 & b0 == b0 & a0 && a0 | b0 == b0 | a0 && a0 ^ b0 == b0 ^ a0) by (bit_vector);
    assert(a1 & b1 == b1 & a1 && a1 | b1 == b1 | a1 && a1 ^ b1 == b1 ^ a1) by (bit_vector);
    assert(a2 & b2 == b2 & a2 && a2 | b2 == b2 | a2 && a2 ^ b2 == b2 ^ a2) by (bit_vector);
    assert(a3 & b3 == b3 & a3 && a3 | b3 == b3 | a3 && a3 ^ b3 == b3 ^ a3) by (bit_vector);
    assert(and_word(a, b).limbs =~= and_word(b, a).limbs);
    assert(or_word(a, b).limbs =~= or_word(b, a).limbs);
    assert(xor_word(a, b).limbs =~= xor_word(b, a).limbs);
    lemma_and_below(a, b);
    lemma_and_below(b, a);
}

/// The AND of two words is at most the first of them.
proof fn lemma_and_below(a: U256, b: U256)
    ensures
        and_word(a, b)@ <= a@,
{
    let a0 = a.limbs[0];
    let a1 = a.limbs[1];
    let a2 = a.limbs[2];
    let a3 = a.limbs[3];
    let b0 = b.limbs[0];
    let b1 = b.limbs[1];
    let b2 = b.limbs[2];
    let b3 = b.limbs[3];
    assert(a0 & b0 <= a0) by (bit_vector);
    assert(a1 & b1 <= a1) by (bit_vector);
    assert(a2 & b2 <= a2) by (bit_vector);
    assert(a3 & b3 <= a3) by (bit_vector);
    let c = and_word(a, b);
    lemma_value_expanded(a);
    lemma_value_expanded(c);
    assert(c.limbs[0] == a0 & b0);
    assert(c.limbs[1] == a1 & b1);
    assert(c.limbs[2] == a2 & b2);
    assert(c.limbs[3] == a3 & b3);
}

/// NOT undoes itself; a word XOR itself is zero; a word AND itself is
/// itself; a word OR zero is itself; NOT turns AND into OR of the
/// complements and OR into AND of the complements.
pub proof fn law_bitwise_identities(a: U256, b: U256)
    ensures
        not_word(not_word(a)) == a,
        xor_word(a, a)@ == 0,
        and_word(a, a) == a,
        or_word(a, U256 { limbs: [0, 0, 0, 0] }) == a,
        not_word(and_word(a, b)) == or_word(not_word(a), not_word(b)),
        not_word(or_word(a, b)) == and_word(not_word(a), not_word(b)),
{
    lemma_limb_laws(a.limbs[0], b.limbs[0]);
    lemma_limb_laws(a.limbs[1], b.limbs[1]);
    lemma_limb_laws(a.limbs[2], b.limbs[2]);
    lemma_limb_laws(a.limbs[3], b.limbs[3]);
    assert(not_word(not_word(a)).limbs =~= a.limbs);
    assert(and_word(a, a).limbs =~= a.limbs);
    assert(or_word(a, U256 { limbs: [0, 0, 0, 0] }).limbs =~= a.limbs);
    assert(not_word(and_word(a, b)).limbs =~= or_word(not_word(a), not_word(b)).limbs);
    assert(not_word(or_word(a, b)).limbs =~= and_word(not_word(a), not_word(b)).limbs);
    lemma_value_expanded(xor_word(a, a));
}

/// Negating twice modulo 2^256 gives the word back.
pub proof fn law_negation_involutive(x: U256)
    ensures
        (pow2(256) - (pow2(256) - x@) % (pow2(256) as int)) % (pow2(256) as int) == x@,
{
    lemma_value_bound(x);
    lemma_limb_powers();
    if x@ == 0 {
        lemma_fundamental_div_mod_converse(pow2(256) as int, pow2(256) as int, 1, 0);
    } else {
        lemma_small_mod((pow2(256) - x@) as nat, pow2(256));
        lemma_small_mod(x@, pow2(256));
    }
}

/// Shifting left by `s` and back right by `s` gives the word back when no
/// set bit was pushed past the top.
pub proof fn law_shl_then_shr(x: U256, s: nat)
    requires
        s <= 256,
        x@ < pow2((256 - s) as nat),
    ensures
        ((x@ * pow2(s)) % pow2(256)) / pow2(s) == x@,
{
    lemma_pow2_pos(s);
    lemma_pow2_adds(s, (256 - s) as nat);
    assert(x@ * pow2(s) < pow2(256)) by (nonlinear_arith)
        requires
            x@ < pow2((256 - s) as nat),
            pow2(256) == pow2(s) * pow2((256 - s) as nat),
            pow2(s) > 0,
    ;
    lemma_small_mod(x@ * pow2(s), pow2(256));
    lemma_div_by_multiple(x@ as int, pow2(s) as int);
}

/// Shifting right by `s < 256` and back left by `s` clears the `s` lowest
/// bits of the word.
pub proof fn law_shr_then_shl(x: U256, s: nat)
    requires
        s < 256,
    ensures
        ((x@ / pow2(s)) * pow2(s)) % pow2(256) == x@ - x@ % pow2(s),
{
    lemma_pow2_pos(s);
    lemma_value_bound(x);
    lemma_fundamental_div_mod(x@ as int, pow2(s) as int);
    lemma_mod_bound(x@ as int, pow2(s) as int);
    let q = x@ / pow2(s);
    assert(q * pow2(s) == pow2(s) * q) by (nonlinear_arith);
    lemma_small_mod(q * pow2(s), pow2(256));
}

/// Schoolbook multiplication by a single limb `m`: the carries `c0..c3`
/// tie the limbs of `r` to the product.
proof fn lemma_mul_limb_chain(x: U256, m: u64, r: U256, c0: int, c1: int, c2: int, c3: int)
    requires
        x.limbs[0] * m == c0 * 0x1_0000_0000_0000_0000int + r.limbs[0],
        x.limbs[1] * m + c0 == c1 * 0x1_0000_0000_0000_0000int + r.limbs[1],
        x.limbs[2] * m + c1 == c2 * 0x1_0000_0000_0000_0000int + r.limbs[2],
        x.limbs[3] * m + c2 == c3 * 0x1_0000_0000_0000_0000int + r.limbs[3],
    ensures
        x@ * m == c3 * pow2(256) + r@,
{
    lemma_value_expanded(x);
    lemma_value_expanded(r);
    lemma_limb_powers();
    let a0 = x.limbs[0] as int;
    let a1 = x.limbs[1] as int;
    let a2 = x.limbs[2] as int;
    let a3 = x.limbs[3] as int;
    let mm = m as int;
    assert(x@ * mm == a0 * mm + 0x1_0000_0000_0000_0000int * (a1 * mm)
        + 0x1_0000_0000_0000_0000_0000_0000_0000_0000int * (a2 * mm)
        + 0x1_0000_0000_0000_0000_0000_0000_0000_0000_0000_0000_0000_0000int * (a3 * mm)) by (nonlinear_arith)
        requires
            x@ == a0 + 0x1_0000_0000_0000_0000int * a1
                + 0x1_0000_0000_0000_0000_0000_0000_0000_0000int * a2
                + 0x1_0000_0000_0000_0000_0000_0000_0000_0000_0000_0000_0000_0000int * a3,
    ;
}

/// `a * m + carry` for limbs `a`, `m` and a carry below 2^64.
fn mul_limbs(a: u64, m: u64, carry: u128) -> (r: u128)
    requires
        carry < 0x1_0000_0000_0000_0000,
    ensures
        r == a * m + carry,
        r / 0x1_0000_0000_0000_0000u128 < 0x1_0000_0000_0000_0000,
{
    proof {
        assert(a * m <= 0xFFFF_FFFF_FFFF_FFFE_0000_0000_0000_0001) by (nonlinear_arith)
            requires
                a <= u64::MAX,
                m <= u64::MAX,
        ;
    }
    (a as u128) * (m as u128) + carry
}

/// Shifting left by 256 bits or more leaves nothing.
pub proof fn lemma_shl_past_top(x: U256, t: nat)
    requires
        t >= 256,
    ensures
        (x@ * pow2(t)) % pow2(256) == 0,
{
    lemma_pow2_adds(256, (t - 256) as nat);
    lemma_pow2_pos(256);
    assert(x@ * pow2(t) == (x@ * pow2((t - 256) as nat)) * pow2(256)) by (nonlinear_arith)
        requires
            pow2(t) == pow2(256) * pow2((t - 256) as nat),
    ;
    lemma_mod_multiples_basic((x@ * pow2((t - 256) as nat)) as int, pow2(256) as int);
}

impl U256 {
    /// The word zero.
    pub fn zero() -> (r: U256)
        ensures
            r@ == 0,
    {
        proof {
            reveal_with_fuel(limbs_from, 5);
        }
        U256 { limbs: [0, 0, 0, 0] }
    }

    /// The largest word, 2^256 - 1.
    pub fn max_value() -> (r: U256)
        ensures
            r@ == pow2(256) - 1,
    {
        let r = U256 { limbs: [u64::MAX, u64::MAX, u64::MAX, u64::MAX] };
        proof {
            lemma_value_expanded(r);
            lemma_limb_powers();
        }
        r
    }

    /// The word that holds `v`.
    pub fn from_u64(v: u64) -> (r: U256)
        ensures
            r@ == v,
    {
        proof {
            reveal_with_fuel(limbs_from, 5);
        }
        U256 { limbs: [v, 0, 0, 0] }
    }

    /// One for `true`, zero for `false`.
    pub fn from_bool(b: bool) -> (r: U256)
        ensures
            r@ == (if b { 1nat } else { 0nat }),
    {
        if b { U256::from_u64(1) } else { U256::from_u64(0) }
    }

    /// The word made of the given limbs, least significant first.
    pub fn from_limbs(limbs: [u64; 4]) -> (r: U256)
        ensures
            r.limbs == limbs,
    {
        U256 { limbs }
    }

    /// The limbs of the word, least significant first.
    pub fn as_limbs(&self) -> (r: [u64; 4])
        ensures
            r == self.limbs,
    {
        self.limbs
    }

    pub fn is_zero(&self) -> (r: bool)
        ensures
            r == (self@ == 0),
    {
        proof {
            lemma_value_expanded(*self);
        }
        self.limbs[0] == 0 && self.limbs[1] == 0 && self.limbs[2] == 0 && self.limbs[3] == 0
    }

    pub fn equals(&self, other: &U256) -> (r: bool)
        ensures
            r == (self@ == other@),
    {
        proof {
            lemma_value_injective(*self, *other);
        }
        let r = self.limbs[0] == other.limbs[0] && self.limbs[1] == other.limbs[1]
            && self.limbs[2] == other.limbs[2] && self.limbs[3] == other.limbs[3];
        proof {
            if r {
                assert(self.limbs =~= other.limbs);
            }
        }
        r
    }

    /// Unsigned less-than.
    pub fn lt(&self, other: &U256) -> (r: bool)
        ensures
            r == (self@ < other@),
    {
        proof {
            lemma_value_expanded(*self);
            lemma_value_expanded(*other);
        }
        let a = &self.limbs;
        let b = &other.limbs;
        if a[3] != b[3] {
            a[3] < b[3]
        } else if a[2] != b[2] {
            a[2] < b[2]
        } else if a[1] != b[1] {
            a[1] < b[1]
        } else {
            a[0] < b[0]
        }
    }

    /// Unsigned greater-than.
    pub fn gt(&self, other: &U256) -> (r: bool)
        ensures
            r == (self@ > other@),
    {
        other.lt(self)
    }

    pub fn bit_and(&self, other: &U256) -> (r: U256)
        ensures
            r == and_word(*self, *other),
            forall|k: nat| k < 256 ==> #[trigger] bit_at(r@, k) == bit_at(self@, k) * bit_at(other@, k),
    {
        let r = U256 {
            limbs: [
                self.limbs[0] & other.limbs[0],
                self.limbs[1] & other.limbs[1],
                self.limbs[2] & other.limbs[2],
                self.limbs[3] & other.limbs[3],
            ],
        };
        proof {
            assert forall|k: nat| k < 256 implies #[trigger] bit_at(r@, k) == bit_at(self@, k) * bit_at(other@, k) by {
                law_bitwise_bits(*self, *other, k);
            }
        }
        r
    }

    pub fn bit_or(&self, other: &U256) -> (r: U256)
        ensures
            r == or_word(*self, *other),
            forall|k: nat| k < 256 ==> #[trigger] bit_at(r@, k) == bit_at(self@, k) + bit_at(other@, k) - bit_at(self@, k) * bit_at(other@, k),
    {
        let r = U256 {
            limbs: [
                self.limbs[0] | other.limbs[0],
                self.limbs[1] | other.limbs[1],
                self.limbs[2] | other.limbs[2],
                self.limbs[3] | other.limbs[3],
            ],
        };
        proof {
            assert forall|k: nat| k < 256 implies #[trigger] bit_at(r@, k) == bit_at(self@, k) + bit_at(other@, k) - bit_at(self@, k) * bit_at(other@, k) by {
                law_bitwise_bits(*self, *other, k);
            }
        }
        r
    }

    pub fn bit_xor(&self, other: &U256) -> (r: U256)
        ensures
            r == xor_word(*self, *other),
            forall|k: nat| k < 256 ==> #[trigger] bit_at(r@, k) == (bit_at(self@, k) + bit_at(other@, k)) % 2,
    {
        let r = U256 {
            limbs: [
                self.limbs[0] ^ other.limbs[0],
                self.limbs[1] ^ other.limbs[1],
                self.limbs[2] ^ other.limbs[2],
                self.limbs[3] ^ other.limbs[3],
            ],
        };
        proof {
            assert forall|k: nat| k < 256 implies #[trigger] bit_at(r@, k) == (bit_at(self@, k) + bit_at(other@, k)) % 2 by {
                law_bitwise_bits(*self, *other, k);
            }
        }
        r
    }

    /// Every bit flipped: the value becomes 2^256 - 1 - value.
    pub fn bit_not(&self) -> (r: U256)
        ensures
            r == not_word(*self),
            r@ == pow2(256) - 1 - self@,
            forall|k: nat| k < 256 ==> #[trigger] bit_at(r@, k) == 1 - bit_at(self@, k),
    {
        let r = U256 {
            limbs: [!self.limbs[0], !self.limbs[1], !self.limbs[2], !self.limbs[3]],
        };
        proof {
            lemma_not_limb(self.limbs[0]);
            lemma_not_limb(self.limbs[1]);
            lemma_not_limb(self.limbs[2]);
            lemma_not_limb(self.limbs[3]);
            lemma_value_expanded(*self);
            lemma_value_expanded(r);
            lemma_limb_powers();
            assert forall|k: nat| k < 256 implies #[trigger] bit_at(r@, k) == 1 - bit_at(self@, k) by {
                law_bitwise_bits(*self, *self, k);
            }
        }
        r
    }

    /// Sum modulo 2^256.
    pub fn wrapping_add(&self, rhs: &U256) -> (r: U256)
        ensures
            r@ == (self@ + rhs@) % pow2(256),
    {
        let a = &self.limbs;
        let b = &rhs.limbs;
        let s0: u128 = a[0] as u128 + b[0] as u128;
        let c0: u128 = s0 / 0x1_0000_0000_0000_0000u128;
        let s1: u128 = a[1] as u128 + b[1] as u128 + c0;
        let c1: u128 = s1 / 0x1_0000_0000_0000_0000u128;
        let s2: u128 = a[2] as u128 + b[2] as u128 + c1;
        let c2: u128 = s2 / 0x1_0000_0000_0000_0000u128;
        let s3: u128 = a[3] as u128 + b[3] as u128 + c2;
        let c3: u128 = s3 / 0x1_0000_0000_0000_0000u128;
        let r = U256 {
            limbs: [
                (s0 % 0x1_0000_0000_0000_0000u128) as u64,
                (s1 % 0x1_0000_0000_0000_0000u128) as u64,
                (s2 % 0x1_0000_0000_0000_0000u128) as u64,
                (s3 % 0x1_0000_0000_0000_0000u128) as u64,
            ],
        };
        proof {
            lemma_fundamental_div_mod(s0 as int, 0x1_0000_0000_0000_0000int);
            lemma_fundamental_div_mod(s1 as int, 0x1_0000_0000_0000_0000int);
            lemma_fundamental_div_mod(s2 as int, 0x1_0000_0000_0000_0000int);
            lemma_fundamental_div_mod(s3 as int, 0x1_0000_0000_0000_0000int);
            lemma_carry_chain(*self, *rhs, r, 0, c0 as int, c1 as int, c2 as int, c3 as int);
            lemma_value_bound(r);
            lemma_limb_powers();
            lemma_fundamental_div_mod_converse(
                (self@ + rhs@) as int,
                pow2(256) as int,
                c3 as int,
                r@ as int,
            );
        }
        r
    }

    /// Difference modulo 2^256.
    pub fn wrapping_sub(&self, rhs: &U256) -> (r: U256)
        ensures
            r@ == (self@ + pow2(256) - rhs@) % (pow2(256) as int),
    {
        let a = &self.limbs;
        let b = &rhs.limbs;
        let t0: u128 = a[0] as u128 + (!b[0]) as u128 + 1;
        let k0: u128 = t0 / 0x1_0000_0000_0000_0000u128;
        let t1: u128 = a[1] as u128 + (!b[1]) as u128 + k0;
        let k1: u128 = t1 / 0x1_0000_0000_0000_0000u128;
        let t2: u128 = a[2] as u128 + (!b[2]) as u128 + k1;
        let k2: u128 = t2 / 0x1_0000_0000_0000_0000u128;
        let t3: u128 = a[3] as u128 + (!b[3]) as u128 + k2;
        let k3: u128 = t3 / 0x1_0000_0000_0000_0000u128;
        let r = U256 {
            limbs: [
                (t0 % 0x1_0000_0000_0000_0000u128) as u64,
                (t1 % 0x1_0000_0000_0000_0000u128) as u64,
                (t2 % 0x1_0000_0000_0000_0000u128) as u64,
                (t3 % 0x1_0000_0000_0000_0000u128) as u64,
            ],
        };
        proof {
            lemma_fundamental_div_mod(t0 as int, 0x1_0000_0000_0000_0000int);
            lemma_fundamental_div_mod(t1 as int, 0x1_0000_0000_0000_0000int);
            lemma_fundamental_div_mod(t2 as int, 0x1_0000_0000_0000_0000int);
            lemma_fundamental_div_mod(t3 as int, 0x1_0000_0000_0000_0000int);
            let nb = U256 { limbs: [!b[0], !b[1], !b[2], !b[3]] };
            lemma_not_limb(b[0]);
            lemma_not_limb(b[1]);
            lemma_not_limb(b[2]);
            lemma_not_limb(b[3]);
            lemma_carry_chain(*self, nb, r, 1, k0 as int, k1 as int, k2 as int, k3 as int);
            lemma_value_expanded(*rhs);
            lemma_value_expanded(nb);
            lemma_value_bound(r);
            lemma_value_bound(*rhs);
            lemma_limb_powers();
            lemma_fundamental_div_mod_converse(
                (self@ + pow2(256) - rhs@) as int,
                pow2(256) as int,
                k3 as int,
                r@ as int,
            );
        }
        r
    }

    /// Two's complement negation: 2^256 - value, modulo 2^256.
    pub fn wrapping_neg(&self) -> (r: U256)
        ensures
            r@ == (pow2(256) - self@) % (pow2(256) as int),
    {
        U256::zero().wrapping_sub(self)
    }

    /// Shift toward the most significant bit by `shift` bits, dropping what
    /// passes the top: the value becomes value * 2^shift modulo 2^256.
    pub fn wrapping_shl(&self, shift: usize) -> (r: U256)
        ensures
            r@ == (self@ * pow2(shift as nat)) % pow2(256),
    {
        if shift >= 256 {
            proof {
                lemma_shl_past_top(*self, shift as nat);
            }
            return U256::zero();
        }
        let r = U256 {
            limbs: [
                self.shl_limb(shift, 0),
                self.shl_limb(shift, 1),
                self.shl_limb(shift, 2),
                self.shl_limb(shift, 3),
            ],
        };
        proof {
            let f = (self@ * pow2(shift as nat)) % pow2(256);
            lemma_pow2_pos(256);
            lemma_mod_bound((self@ * pow2(shift as nat)) as int, pow2(256) as int);
            assert forall|i: int| 0 <= i < 4 implies #[trigger] r.limbs[i] == (f / pow2(
                (64 * i) as nat,
            )) % limb_base() by {
                lemma_digit_of_wrapped(self@ * pow2(shift as nat), i as nat);
            }
            lemma_from_digits(r, f);
        }
        r
    }

    /// Limb `i` of the word shifted left by `shift < 256` bits, before the
    /// bits past the top are dropped.
    fn shl_limb(&self, shift: usize, i: usize) -> (r: u64)
        requires
            shift < 256,
            i < 4,
        ensures
            r == ((self@ * pow2(shift as nat)) / pow2((64 * i) as nat)) % limb_base(),
    {
        let lo_bit: usize = 64 * i;
        let ghost x = self@;
        let ghost p = pow2(shift as nat);
        proof {
            lemma_pow2_pos(shift as nat);
            lemma_pow2_pos(lo_bit as nat);
        }
        if lo_bit >= shift {
            let u: usize = lo_bit - shift;
            proof {
                lemma_pow2_adds(shift as nat, u as nat);
                lemma_pow2_pos(u as nat);
                lemma_div_denominator((x * p) as int, p as int, pow2(u as nat) as int);
                lemma_div_by_multiple(x as int, p as int);
            }
            self.window(u)
        } else {
            let u: usize = shift - lo_bit;
            proof {
                lemma_pow2_adds(lo_bit as nat, u as nat);
                lemma_pow2_pos(u as nat);
                assert(x * p == (x * pow2(u as nat)) * pow2(lo_bit as nat)) by (nonlinear_arith)
                    requires
                        p == pow2(lo_bit as nat) * pow2(u as nat),
                ;
                lemma_div_by_multiple((x * pow2(u as nat)) as int, pow2(lo_bit as nat) as int);
            }
            if u >= 64 {
                proof {
                    lemma2_to64();
                    lemma_pow2_adds(64, (u - 64) as nat);
                    assert(x * pow2(u as nat) == limb_base() * (x * pow2((u - 64) as nat))) by (nonlinear_arith)
                        requires
                            pow2(u as nat) == limb_base() * pow2((u - 64) as nat),
                    ;
                    lemma_mod_multiples_vanish((x * pow2((u - 64) as nat)) as int, 0, limb_base() as int);
                }
                0
            } else {
                let pw: u64 = 1u64 << (u as u64);
                let l0: u64 = self.limbs[0];
                proof {
                    assert((l0 as u128) * (pw as u128) <= u128::MAX) by (nonlinear_arith)
                        requires
                            l0 <= u64::MAX,
                            pw <= u64::MAX,
                    ;
                }
                let prod: u128 = (l0 as u128) * (pw as u128);
                proof {
                    lemma2_to64();
                    if u < 63 {
                        lemma_pow2_strictly_increases(u as nat, 63);
                    }
                    lemma2_to64_rest();
                    lemma_u64_pow2_no_overflow(u as nat);
                    lemma_u64_shl_is_mul(1, u as u64);
                    lemma_div_limb_power(*self, 1);
                    lemma_limbs_from_step(self.limbs, 0);
                    lemma_fundamental_div_mod(x as int, limb_base() as int);
                    let rest = limbs_from(self.limbs, 1);
                    assert(x * pow2(u as nat) == limb_base() * (rest * pow2(u as nat)) + self.limbs[0] * pow2(u as nat)) by (nonlinear_arith)
                        requires
                            x == limb_base() * rest + self.limbs[0],
                    ;
                    lemma_mod_multiples_vanish(
                        (rest * pow2(u as nat)) as int,
                        (self.limbs[0] * pow2(u as nat)) as int,
                        limb_base() as int,
                    );
                    assert(prod == self.limbs[0] * pow2(u as nat));
                }
                (prod % 0x1_0000_0000_0000_0000u128) as u64
            }
        }
    }

    /// Shift toward the least significant bit by `shift` bits: the value
    /// becomes value / 2^shift, rounded down.
    pub fn wrapping_shr(&self, shift: usize) -> (r: U256)
        ensures
            r@ == self@ / pow2(shift as nat),
    {
        if shift >= 256 {
            proof {
                lemma_div_past_top(*self, shift as nat);
            }
            return U256::zero();
        }
        let r = U256 {
            limbs: [
                self.window(shift),
                self.window(shift + 64),
                self.window(shift + 128),
                self.window(shift + 192),
            ],
        };
        proof {
            let x = self@;
            let p = pow2(shift as nat);
            let f = x / p;
            lemma_pow2_pos(shift as nat);
            lemma2_to64();
            lemma_div_is_ordered_by_denominator(x as int, 1, p as int);
            lemma_value_bound(*self);
            assert forall|i: int| 0 <= i < 4 implies #[trigger] r.limbs[i] == (f / pow2(
                (64 * i) as nat,
            )) % limb_base() by {
                lemma_pow2_adds(shift as nat, (64 * i) as nat);
                lemma_pow2_pos((64 * i) as nat);
                lemma_div_denominator(x as int, p as int, pow2((64 * i) as nat) as int);
            }
            lemma_from_digits(r, f);
        }
        r
    }

    /// Byte `index` of the word, counted from the least significant byte.
    pub fn byte(&self, index: usize) -> (r: u8)
        requires
            index < 32,
        ensures
            r == (self@ / pow2((8 * index) as nat)) % 256,
    {
        let w = self.window(8 * index);
        proof {
            lemma_mod_mod((self@ / pow2((8 * index) as nat)) as int, 256, 0x100_0000_0000_0000int);
        }
        (w % 256) as u8
    }

    /// The value as a `usize`, or `usize::MAX` when it does not fit.
    pub fn as_usize_saturated(&self) -> (r: usize)
        ensures
            r == (if self@ <= usize::MAX { self@ } else { usize::MAX as nat }),
    {
        proof {
            lemma_value_expanded(*self);
        }
        if self.limbs[1] == 0 && self.limbs[2] == 0 && self.limbs[3] == 0 {
            if (self.limbs[0] as u128) <= (usize::MAX as u128) {
                self.limbs[0] as usize
            } else {
                usize::MAX
            }
        } else {
            usize::MAX
        }
    }

    /// Whether bit 255, the sign bit of a two's complement word, is set.
    pub fn sign_bit(&self) -> (r: bool)
        ensures
            r == (self@ >= pow2(255)),
    {
        proof {
            lemma_value_expanded(*self);
            lemma_limb_powers();
        }
        self.limbs[3] >= 0x8000_0000_0000_0000u64
    }

    /// Product with `m` modulo 2^256.
    pub fn wrapping_mul_u64(&self, m: u64) -> (r: U256)
        ensures
            r@ == (self@ * m) % (pow2(256) as int),
    {
        let a = &self.limbs;
        let p0: u128 = mul_limbs(a[0], m, 0);
        let c0: u128 = p0 / 0x1_0000_0000_0000_0000u128;
        let p1: u128 = mul_limbs(a[1], m, c0);
        let c1: u128 = p1 / 0x1_0000_0000_0000_0000u128;
        let p2: u128 = mul_limbs(a[2], m, c1);
        let c2: u128 = p2 / 0x1_0000_0000_0000_0000u128;
        let p3: u128 = mul_limbs(a[3], m, c2);
        let c3: u128 = p3 / 0x1_0000_0000_0000_0000u128;
        let r = U256 {
            limbs: [
                (p0 % 0x1_0000_0000_0000_0000u128) as u64,
                (p1 % 0x1_0000_0000_0000_0000u128) as u64,
                (p2 % 0x1_0000_0000_0000_0000u128) as u64,
                (p3 % 0x1_0000_0000_0000_0000u128) as u64,
            ],
        };
        proof {
            lemma_fundamental_div_mod(p0 as int, 0x1_0000_0000_0000_0000int);
            lemma_fundamental_div_mod(p1 as int, 0x1_0000_0000_0000_0000int);
            lemma_fundamental_div_mod(p2 as int, 0x1_0000_0000_0000_0000int);
            lemma_fundamental_div_mod(p3 as int, 0x1_0000_0000_0000_0000int);
            lemma_mul_limb_chain(*self, m, r, c0 as int, c1 as int, c2 as int, c3 as int);
            lemma_value_bound(r);
            lemma_limb_powers();
            lemma_fundamental_div_mod_converse(
                (self@ * m) as int,
                pow2(256) as int,
                c3 as int,
                r@ as int,
            );
        }
        r
    }
}

} // verus!
