//! Comparison, bitwise and shift instructions (EIP-145 for the shifts).

use vstd::prelude::*;
use vstd::arithmetic::power2::*;
use vstd::arithmetic::div_mod::*;
use core::cmp::Ordering;
use crate::u256::{
    U256, and_word, or_word, xor_word, not_word, lemma_value_bound, lemma_limb_powers,
    lemma_shl_past_top, lemma_div_past_top,
};
use crate::i256::{
    i256_value, i256_cmp, i256_sign_compl, two_compl, Sign, arithmetic_shr,
    lemma_floor_div_negative,
};
use crate::gas::VERYLOW;
use crate::interpreter::{Interpreter, operand, stack_op, gated_stack_op, charge, pop_two, pop_one};
use crate::primitives::{Spec, SpecId, is_enabled_in};

verus! {

/// One for true, zero for false.
pub open spec fn bool_word(b: bool) -> nat {
    if b { 1 } else { 0 }
}

/// Pushes `value` back after the operands were popped.
fn push_result(interpreter: &mut Interpreter, value: U256)
    ensures
        final(interpreter).stack@ == old(interpreter).stack@.push(value),
        final(interpreter).stack@.take(old(interpreter).stack@.len() as int) == old(interpreter).stack@,
        final(interpreter).gas@ == old(interpreter).gas@,
        final(interpreter).instruction_result == old(interpreter).instruction_result,
{
    interpreter.stack.push(value);
    proof {
        assert(interpreter.stack@.take(old(interpreter).stack@.len() as int) =~= old(interpreter).stack@);
    }
}

/// LT: one when the top operand is below the second, else zero.
pub fn lt(interpreter: &mut Interpreter)
    ensures
        stack_op(*old(interpreter), *final(interpreter), VERYLOW, 2,
            bool_word(operand(*old(interpreter), 0)@ < operand(*old(interpreter), 1)@)),
{
    if !charge(interpreter, VERYLOW) {
        return;
    }
    if let Some((op1, op2)) = pop_two(interpreter) {
        push_result(interpreter, U256::from_bool(op1.lt(&op2)));
    }
}


/// GT: one when the top operand is above the second, else zero.
pub fn gt(interpreter: &mut Interpreter)
    ensures
        stack_op(*old(interpreter), *final(interpreter), VERYLOW, 2,
            bool_word(operand(*old(interpreter), 0)@ > operand(*old(interpreter), 1)@)),
{
    if !charge(interpreter, VERYLOW) {
        return;
    }
    if let Some((op1, op2)) = pop_two(interpreter) {
        push_result(interpreter, U256::from_bool(op1.gt(&op2)));
    }
}

/// SLT: one when the top operand is below the second, both read as two's
/// complement numbers, else zero.
pub fn slt(interpreter: &mut Interpreter)
    ensures
        stack_op(*old(interpreter), *final(interpreter), VERYLOW, 2,
            bool_word(i256_value(operand(*old(interpreter), 0)) < i256_value(operand(*old(interpreter), 1)))),
{
    if !charge(interpreter, VERYLOW) {
        return;
    }
    if let Some((op1, op2)) = pop_two(interpreter) {
        let less = match i256_cmp(&op1, &op2) {
            Ordering::Less => true,
            _ => false,
        };
        push_result(interpreter, U256::from_bool(less));
    }
}

/// SGT: one when the top operand is above the second, both read as two's
/// complement numbers, else zero.
pub fn sgt(interpreter: &mut Interpreter)
    ensures
        stack_op(*old(interpreter), *final(interpreter), VERYLOW, 2,
            bool_word(i256_value(operand(*old(interpreter), 0)) > i256_value(operand(*old(interpreter), 1)))),
{
    if !charge(interpreter, VERYLOW) {
        return;
    }
    if let Some((op1, op2)) = pop_two(interpreter) {
        let greater = match i256_cmp(&op1, &op2) {
            Ordering::Greater => true,
            _ => false,
        };
        push_result(interpreter, U256::from_bool(greater));
    }
}

/// EQ: one when the top two operands are equal, else zero.
pub fn eq(interpreter: &mut Interpreter)
    ensures
        stack_op(*old(interpreter), *final(interpreter), VERYLOW, 2,
            bool_word(operand(*old(interpreter), 0)@ == operand(*old(interpreter), 1)@)),
{
    if !charge(interpreter, VERYLOW) {
        return;
    }
    if let Some((op1, op2)) = pop_two(interpreter) {
        push_result(interpreter, U256::from_bool(op1.equals(&op2)));
    }
}

/// ISZERO: one when the top operand is zero, else zero.
pub fn iszero(interpreter: &mut Interpreter)
    ensures
        stack_op(*old(interpreter), *final(interpreter), VERYLOW, 1,
            bool_word(operand(*old(interpreter), 0)@ == 0)),
{
    if !charge(interpreter, VERYLOW) {
        return;
    }
    if let Some(op1) = pop_one(interpreter) {
        push_result(interpreter, U256::from_bool(op1.is_zero()));
    }
}

/// AND of the top two operands.
pub fn bitand(interpreter: &mut Interpreter)
    ensures
        stack_op(*old(interpreter), *final(interpreter), VERYLOW, 2,
            and_word(operand(*old(interpreter), 0), operand(*old(interpreter), 1))@),
{
    if !charge(interpreter, VERYLOW) {
        return;
    }
    if let Some((op1, op2)) = pop_two(interpreter) {
        push_result(interpreter, op1.bit_and(&op2));
    }
}

/// OR of the top two operands.
pub fn bitor(interpreter: &mut Interpreter)
    ensures
        stack_op(*old(interpreter), *final(interpreter), VERYLOW, 2,
            or_word(operand(*old(interpreter), 0), operand(*old(interpreter), 1))@),
{
    if !charge(interpreter, VERYLOW) {
        return;
    }
    if let Some((op1, op2)) = pop_two(interpreter) {
        push_result(interpreter, op1.bit_or(&op2));
    }
}

/// XOR of the top two operands.
pub fn bitxor(interpreter: &mut Interpreter)
    ensures
        stack_op(*old(interpreter), *final(interpreter), VERYLOW, 2,
            xor_word(operand(*old(interpreter), 0), operand(*old(interpreter), 1))@),
{
    if !charge(interpreter, VERYLOW) {
        return;
    }
    if let Some((op1, op2)) = pop_two(interpreter) {
        push_result(interpreter, op1.bit_xor(&op2));
    }
}

/// NOT: every bit of the top operand flipped.
pub fn not(interpreter: &mut Interpreter)
    ensures
        stack_op(*old(interpreter), *final(interpreter), VERYLOW, 1,
            not_word(operand(*old(interpreter), 0))@),
        stack_op(*old(interpreter), *final(interpreter), VERYLOW, 1,
            (pow2(256) - 1 - operand(*old(interpreter), 0)@) as nat),
{
    if !charge(interpreter, VERYLOW) {
        return;
    }
    if let Some(op1) = pop_one(interpreter) {
        push_result(interpreter, op1.bit_not());
    }
}

/// The byte that BYTE picks: byte `index` of `value` counted from the most
/// significant byte, or zero when `index` is 32 or more.
pub open spec fn byte_of(index: nat, value: nat) -> nat {
    if index < 32 {
        (value / pow2((8 * (31 - index)) as nat)) % 256
    } else {
        0
    }
}

/// BYTE: byte number `top` of the second operand, the most significant
/// byte being number zero.
pub fn byte(interpreter: &mut Interpreter)
    ensures
        stack_op(*old(interpreter), *final(interpreter), VERYLOW, 2,
            byte_of(operand(*old(interpreter), 0)@, operand(*old(interpreter), 1)@)),
{
    if !charge(interpreter, VERYLOW) {
        return;
    }
    if let Some((op1, op2)) = pop_two(interpreter) {
        let o1 = op1.as_usize_saturated();
        let r = if o1 < 32 {
            // the byte is counted from the least significant end
            U256::from_u64(op2.byte(31 - o1) as u64)
        } else {
            U256::zero()
        };
        push_result(interpreter, r);
    }
}

/// SHL: the second operand shifted left by the top operand, modulo 2^256.
pub fn shl<SPEC: Spec>(interpreter: &mut Interpreter)
    ensures
        gated_stack_op(*old(interpreter), *final(interpreter),
            is_enabled_in(SPEC::hardfork(), SpecId::CONSTANTINOPLE), VERYLOW, 2,
            (operand(*old(interpreter), 1)@ * pow2(operand(*old(interpreter), 0)@)) % pow2(256)),
{
    if !SPEC::enabled(SpecId::CONSTANTINOPLE) {
        interpreter.instruction_result = crate::interpreter::InstructionResult::NotActivated;
        return;
    }
    if !charge(interpreter, VERYLOW) {
        return;
    }
    if let Some((op1, op2)) = pop_two(interpreter) {
        let shift = op1.as_usize_saturated();
        let r = op2.wrapping_shl(shift);
        proof {
            if op1@ > usize::MAX {
                lemma_shl_past_top(op2, op1@);
                lemma_shl_past_top(op2, shift as nat);
            }
        }
        push_result(interpreter, r);
    }
}

/// SHR: the second operand shifted right by the top operand.
pub fn shr<SPEC: Spec>(interpreter: &mut Interpreter)
    ensures
        gated_stack_op(*old(interpreter), *final(interpreter),
            is_enabled_in(SPEC::hardfork(), SpecId::CONSTANTINOPLE), VERYLOW, 2,
            operand(*old(interpreter), 1)@ / pow2(operand(*old(interpreter), 0)@)),
{
    if !SPEC::enabled(SpecId::CONSTANTINOPLE) {
        interpreter.instruction_result = crate::interpreter::InstructionResult::NotActivated;
        return;
    }
    if !charge(interpreter, VERYLOW) {
        return;
    }
    if let Some((op1, op2)) = pop_two(interpreter) {
        let shift = op1.as_usize_saturated();
        let r = op2.wrapping_shr(shift);
        proof {
            if op1@ > usize::MAX {
                lemma_div_past_top(op2, op1@);
                lemma_div_past_top(op2, shift as nat);
            }
        }
        push_result(interpreter, r);
    }
}


/// SAR: the second operand, read as a two's complement number, shifted
/// right by the top operand, rounding toward negative infinity.
pub fn sar<SPEC: Spec>(interpreter: &mut Interpreter)
    ensures
        gated_stack_op(*old(interpreter), *final(interpreter),
            is_enabled_in(SPEC::hardfork(), SpecId::CONSTANTINOPLE), VERYLOW, 2,
            arithmetic_shr(operand(*old(interpreter), 1), operand(*old(interpreter), 0)@)),
{
    if !SPEC::enabled(SpecId::CONSTANTINOPLE) {
        interpreter.instruction_result = crate::interpreter::InstructionResult::NotActivated;
        return;
    }
    if !charge(interpreter, VERYLOW) {
        return;
    }
    if let Some((op1, op2)) = pop_two(interpreter) {
        let r = sar_word(&op1, op2);
        push_result(interpreter, r);
    }
}

/// `value` shifted right arithmetically by `shift` bits.
fn sar_word(shift: &U256, value: U256) -> (r: U256)
    ensures
        r@ == arithmetic_shr(value, shift@),
{
    let ghost v = i256_value(value);
    let mut op2 = value;
    let value_sign = i256_sign_compl(&mut op2);
    proof {
        lemma_value_bound(value);
        lemma_limb_powers();
        lemma_pow2_pos(shift@);
    }
    if op2.is_zero() || !shift.lt(&U256::from_u64(256)) {
        match value_sign {
            Sign::Plus | Sign::Zero => {
                proof {
                    if v > 0 {
                        if shift@ > 255 {
                            lemma_pow2_strictly_increases(255, shift@);
                        }
                        lemma_basic_div(v, pow2(shift@) as int);
                    }
                }
                U256::zero()
            },
            Sign::Minus => {
                proof {
                    lemma_pow2_strictly_increases(255, shift@);
                    let d = pow2(shift@) as int;
                    lemma_fundamental_div_mod_converse(v, d, -1, v + d);
                    lemma_fundamental_div_mod_converse(-1, pow2(256) as int, -1, pow2(256) - 1);
                }
                U256::max_value()
            },
        }
    } else {
        let s = shift.as_usize_saturated();
        match value_sign {
            Sign::Plus | Sign::Zero => {
                let r = op2.wrapping_shr(s);
                proof {
                    lemma_value_bound(r);
                    lemma_small_mod(r@, pow2(256));
                }
                r
            },
            Sign::Minus => {
                let one = U256::from_u64(1);
                let m1 = op2.wrapping_sub(&one);
                proof {
                    lemma_small_mod((op2@ - 1) as nat, pow2(256));
                    assert(m1@ == op2@ - 1);
                }
                let q = m1.wrapping_shr(s);
                proof {
                    let d = pow2(s as nat) as int;
                    lemma_div_is_ordered_by_denominator((op2@ - 1) as int, 1, d);
                }
                let q1 = q.wrapping_add(&one);
                proof {
                    lemma_small_mod((q@ + 1) as nat, pow2(256));
                }
                let r = two_compl(q1);
                proof {
                    lemma_small_mod((pow2(256) - q1@) as nat, pow2(256));
                    lemma_floor_div_negative(op2@ as int, pow2(s as nat) as int);
                    lemma_fundamental_div_mod_converse(
                        -(q@ + 1),
                        pow2(256) as int,
                        -1,
                        pow2(256) - (q@ + 1),
                    );
                }
                r
            },
        }
    }
}


/// Shifting by the word width or more (EIP-145): SHL and SHR give zero,
/// SAR gives minus one for a negative value and zero otherwise.
pub proof fn law_shift_past_width(value: U256, shift: nat)
    requires
        shift >= 256,
    ensures
        (value@ * pow2(shift)) % pow2(256) == 0,
        value@ / pow2(shift) == 0,
        arithmetic_shr(value, shift) == (if i256_value(value) < 0 { pow2(256) - 1 } else { 0 }),
{
    lemma_shl_past_top(value, shift);
    lemma_div_past_top(value, shift);
    lemma_value_bound(value);
    lemma_limb_powers();
    lemma_pow2_strictly_increases(255, shift);
    let v = i256_value(value);
    let d = pow2(shift) as int;
    if v < 0 {
        lemma_fundamental_div_mod_converse(v, d, -1, v + d);
        lemma_fundamental_div_mod_converse(-1, pow2(256) as int, -1, pow2(256) - 1);
    } else {
        lemma_basic_div(v, d);
    }
}

/// SLT and SGT are mirror images: `a` is below `b` exactly when `b` is above
/// `a`, in the signed reading as in the unsigned one.
pub proof fn law_comparisons_mirror(a: U256, b: U256)
    ensures
        bool_word(i256_value(a) < i256_value(b)) == bool_word(i256_value(b) > i256_value(a)),
        bool_word(a@ < b@) == bool_word(b@ > a@),
        i256_value(a) == i256_value(b) <==> a@ == b@,
{
    crate::i256::law_i256_value_roundtrip(a);
    crate::i256::law_i256_value_roundtrip(b);
}

/// BYTE counts bytes from the most significant end: byte 31 is the lowest
/// byte, byte 0 the highest, byte `i` of `v` is byte `i + 1` of `v`
/// shifted down by one byte, and there is no byte 32 or beyond.
pub proof fn law_byte_order(v: nat, i: nat)
    requires
        v < pow2(256),
    ensures
        byte_of(31, v) == v % 256,
        byte_of(0, v) == v / pow2(248),
        i < 31 ==> byte_of(i, v) == byte_of(i + 1, v / 256),
        i >= 32 ==> byte_of(i, v) == 0,
{
    vstd::arithmetic::power2::lemma2_to64();
    assert(v / 1 == v);
    lemma_pow2_pos(248);
    lemma_pow2_adds(248, 8);
    assert(v / pow2(248) < 256) by (nonlinear_arith)
        requires
            v < pow2(256),
            pow2(256) == pow2(248) * 256,
            pow2(248) > 0,
    {
        if v / pow2(248) >= 256 {
            lemma_fundamental_div_mod(v as int, pow2(248) as int);
        }
    }
    lemma_small_mod(v / pow2(248), 256);
    if i < 31 {
        let e = (8 * (30 - i)) as nat;
        lemma_pow2_pos(e);
        lemma_pow2_adds(8, e);
        assert(8 + e == 8 * (31 - i));
        lemma_div_denominator(v as int, 256, pow2(e) as int);
    }
}

/// The word an instruction leaves for a condition: one when it holds, zero
/// when it does not.
pub proof fn law_bool_word(b: bool)
    ensures
        b ==> bool_word(b) == 1,
        !b ==> bool_word(b) == 0,
{
}

} // verus!
