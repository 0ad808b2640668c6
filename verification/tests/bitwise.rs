use revm::bitwise;
use revm::interpreter::{InstructionResult, Interpreter};
use revm::primitives::{ByzantiumSpec, LatestSpec, PetersburgSpec};
use revm::u256::U256;

/// Parses a word written as up to 64 hex digits.
fn w(hex: &str) -> U256 {
    let hex = hex.trim_start_matches("0x");
    let padded = format!("{:0>64}", hex);
    let mut limbs = [0u64; 4];
    for i in 0..4 {
        let chunk = &padded[64 - 16 * (i + 1)..64 - 16 * i];
        limbs[i] = u64::from_str_radix(chunk, 16).unwrap();
    }
    U256::from_limbs(limbs)
}

fn n(v: u64) -> U256 {
    U256::from_u64(v)
}

const ALL_ONES: &str = "ffffffffffffffffffffffffffffffffffffffffffffffffffffffffffffffff";
const HIGH_BIT: &str = "8000000000000000000000000000000000000000000000000000000000000000";

/// Runs `op` on a stack whose top is the last element of `stack`, with
/// plenty of gas, and returns the result word.
fn run(op: fn(&mut Interpreter), stack: Vec<U256>) -> U256 {
    let depth = stack.len();
    let arity_taken = depth;
    let mut interp = Interpreter::new(stack, 1000);
    op(&mut interp);
    assert_eq!(interp.instruction_result, InstructionResult::Continue);
    assert_eq!(interp.gas.spend(), 3);
    assert!(interp.stack.len() <= arity_taken);
    *interp.stack.last().unwrap()
}

/// Runs a binary instruction with `top` on top of `second`.
fn bin(op: fn(&mut Interpreter), top: U256, second: U256) -> U256 {
    run(op, vec![second, top])
}

#[test]
fn comparisons() {
    assert_eq!(bin(bitwise::lt, n(1), n(2)), n(1));
    assert_eq!(bin(bitwise::lt, n(2), n(1)), n(0));
    assert_eq!(bin(bitwise::lt, n(2), n(2)), n(0));
    assert_eq!(bin(bitwise::gt, n(2), n(1)), n(1));
    assert_eq!(bin(bitwise::gt, n(1), n(2)), n(0));
    assert_eq!(bin(bitwise::lt, n(u64::MAX), w("10000000000000000")), n(1));
    assert_eq!(bin(bitwise::eq, w(ALL_ONES), w(ALL_ONES)), n(1));
    assert_eq!(bin(bitwise::eq, w(ALL_ONES), w(HIGH_BIT)), n(0));
    assert_eq!(run(bitwise::iszero, vec![n(0)]), n(1));
    assert_eq!(run(bitwise::iszero, vec![w(HIGH_BIT)]), n(0));
}

#[test]
fn signed_comparisons() {
    let minus_one = w(ALL_ONES);
    assert_eq!(bin(bitwise::slt, minus_one, n(1)), n(1));
    assert_eq!(bin(bitwise::slt, n(1), minus_one), n(0));
    assert_eq!(bin(bitwise::sgt, n(1), minus_one), n(1));
    assert_eq!(bin(bitwise::sgt, minus_one, n(1)), n(0));
    // the most negative word is below every other
    assert_eq!(bin(bitwise::slt, w(HIGH_BIT), minus_one), n(1));
    assert_eq!(bin(bitwise::slt, n(3), n(5)), n(1));
    assert_eq!(bin(bitwise::sgt, n(3), n(3)), n(0));
    assert_eq!(bin(bitwise::slt, minus_one, minus_one), n(0));
}

#[test]
fn bitwise_ops() {
    let a = w("ff00ff00ff00ff00ff00ff00ff00ff00ff00ff00ff00ff00ff00ff00ff00ff00");
    let b = w("0ff00ff00ff00ff00ff00ff00ff00ff00ff00ff00ff00ff00ff00ff00ff00ff0");
    assert_eq!(
        bin(bitwise::bitand, a, b),
        w("0f000f000f000f000f000f000f000f000f000f000f000f000f000f000f000f00")
    );
    assert_eq!(
        bin(bitwise::bitor, a, b),
        w("fff0fff0fff0fff0fff0fff0fff0fff0fff0fff0fff0fff0fff0fff0fff0fff0")
    );
    assert_eq!(
        bin(bitwise::bitxor, a, b),
        w("f0f0f0f0f0f0f0f0f0f0f0f0f0f0f0f0f0f0f0f0f0f0f0f0f0f0f0f0f0f0f0f0")
    );
    assert_eq!(bin(bitwise::bitxor, a, a), n(0));
    assert_eq!(run(bitwise::not, vec![n(0)]), w(ALL_ONES));
    assert_eq!(
        run(bitwise::not, vec![a]),
        w("00ff00ff00ff00ff00ff00ff00ff00ff00ff00ff00ff00ff00ff00ff00ff00ff")
    );
}

#[test]
fn byte_picks_from_the_most_significant_end() {
    let v = w("0102030405060708090a0b0c0d0e0f101112131415161718191a1b1c1d1e1f20");
    assert_eq!(bin(bitwise::byte, n(0), v), n(1));
    assert_eq!(bin(bitwise::byte, n(1), v), n(2));
    assert_eq!(bin(bitwise::byte, n(16), v), n(0x11));
    assert_eq!(bin(bitwise::byte, n(31), v), n(0x20));
    assert_eq!(bin(bitwise::byte, n(32), v), n(0));
    assert_eq!(bin(bitwise::byte, w(HIGH_BIT), v), n(0));
}

fn shl(top: U256, second: U256) -> U256 {
    bin(bitwise::shl::<LatestSpec>, top, second)
}

fn shr(top: U256, second: U256) -> U256 {
    bin(bitwise::shr::<LatestSpec>, top, second)
}

fn sar(top: U256, second: U256) -> U256 {
    bin(bitwise::sar::<LatestSpec>, top, second)
}

#[test]
fn shl_vectors() {
    assert_eq!(shl(n(0x00), n(1)), n(1));
    assert_eq!(shl(n(0x01), n(1)), n(2));
    assert_eq!(shl(n(0xff), n(1)), w(HIGH_BIT));
    assert_eq!(shl(n(0x100), n(1)), n(0));
    assert_eq!(shl(n(0x101), n(1)), n(0));
    assert_eq!(shl(n(0x00), w(ALL_ONES)), w(ALL_ONES));
    assert_eq!(
        shl(n(0x01), w(ALL_ONES)),
        w("fffffffffffffffffffffffffffffffffffffffffffffffffffffffffffffffe")
    );
    assert_eq!(shl(n(0xff), w(ALL_ONES)), w(HIGH_BIT));
    assert_eq!(shl(n(0x100), w(ALL_ONES)), n(0));
    assert_eq!(shl(n(0x01), n(0)), n(0));
    assert_eq!(
        shl(n(0x01), w("7fffffffffffffffffffffffffffffffffffffffffffffffffffffffffffffff")),
        w("fffffffffffffffffffffffffffffffffffffffffffffffffffffffffffffffe")
    );
    assert_eq!(shl(n(70), n(3)), w("c00000000000000000"));
    assert_eq!(shl(w(HIGH_BIT), n(1)), n(0));
}

#[test]
fn shr_vectors() {
    assert_eq!(shr(n(0x00), n(1)), n(1));
    assert_eq!(shr(n(0x01), n(1)), n(0));
    assert_eq!(
        shr(n(0x01), w(HIGH_BIT)),
        w("4000000000000000000000000000000000000000000000000000000000000000")
    );
    assert_eq!(shr(n(0xff), w(HIGH_BIT)), n(1));
    assert_eq!(shr(n(0x100), w(HIGH_BIT)), n(0));
    assert_eq!(shr(n(0x101), w(HIGH_BIT)), n(0));
    assert_eq!(shr(n(0x00), w(ALL_ONES)), w(ALL_ONES));
    assert_eq!(
        shr(n(0x01), w(ALL_ONES)),
        w("7fffffffffffffffffffffffffffffffffffffffffffffffffffffffffffffff")
    );
    assert_eq!(shr(n(0xff), w(ALL_ONES)), n(1));
    assert_eq!(shr(n(0x100), w(ALL_ONES)), n(0));
    assert_eq!(shr(n(0x01), n(0)), n(0));
    assert_eq!(shr(n(68), w("c00000000000000000")), n(12));
    assert_eq!(shr(w(HIGH_BIT), w(ALL_ONES)), n(0));
}

#[test]
fn sar_vectors() {
    assert_eq!(sar(n(0x00), n(1)), n(1));
    assert_eq!(sar(n(0x01), n(1)), n(0));
    assert_eq!(
        sar(n(0x01), w(HIGH_BIT)),
        w("c000000000000000000000000000000000000000000000000000000000000000")
    );
    assert_eq!(sar(n(0xff), w(HIGH_BIT)), w(ALL_ONES));
    assert_eq!(sar(n(0x100), w(HIGH_BIT)), w(ALL_ONES));
    assert_eq!(sar(n(0x101), w(HIGH_BIT)), w(ALL_ONES));
    assert_eq!(sar(n(0x00), w(ALL_ONES)), w(ALL_ONES));
    assert_eq!(sar(n(0x01), w(ALL_ONES)), w(ALL_ONES));
    assert_eq!(sar(n(0xff), w(ALL_ONES)), w(ALL_ONES));
    assert_eq!(sar(n(0x100), w(ALL_ONES)), w(ALL_ONES));
    assert_eq!(sar(n(0x01), n(0)), n(0));
    assert_eq!(
        sar(n(0xfe), w("4000000000000000000000000000000000000000000000000000000000000000")),
        n(1)
    );
    let max_positive = w("7fffffffffffffffffffffffffffffffffffffffffffffffffffffffffffffff");
    assert_eq!(sar(n(0xf8), max_positive), n(0x7f));
    assert_eq!(sar(n(0xfe), max_positive), n(1));
    assert_eq!(sar(n(0xff), max_positive), n(0));
    assert_eq!(sar(n(0x100), max_positive), n(0));
}

#[test]
fn sar_rounds_toward_negative_infinity() {
    let minus = |v: u64| U256::from_u64(v).wrapping_neg();
    assert_eq!(sar(n(2), minus(16)), minus(4));
    assert_eq!(sar(n(1), minus(3)), minus(2));
    assert_eq!(sar(n(2), minus(5)), minus(2));
    assert_eq!(sar(n(64), minus(1)), minus(1));
    assert_eq!(sar(n(2), n(17)), n(4));
    assert_eq!(sar(w(HIGH_BIT), minus(7)), minus(1));
}

#[test]
fn stack_underflow_charges_gas_and_keeps_stack() {
    let mut interp = Interpreter::new(vec![n(5)], 100);
    bitwise::lt(&mut interp);
    assert_eq!(interp.instruction_result, InstructionResult::StackUnderflow);
    assert_eq!(interp.gas.spend(), 3);
    assert_eq!(interp.stack, vec![n(5)]);

    let mut interp = Interpreter::new(vec![], 100);
    bitwise::not(&mut interp);
    assert_eq!(interp.instruction_result, InstructionResult::StackUnderflow);
    assert!(interp.stack.is_empty());
}

#[test]
fn out_of_gas_changes_nothing_else() {
    let mut interp = Interpreter::new(vec![n(1), n(2)], 2);
    bitwise::bitand(&mut interp);
    assert_eq!(interp.instruction_result, InstructionResult::OutOfGas);
    assert_eq!(interp.gas.spend(), 0);
    assert_eq!(interp.stack, vec![n(1), n(2)]);
}

#[test]
fn shifts_need_constantinople() {
    let mut interp = Interpreter::new(vec![n(1), n(2)], 100);
    bitwise::shl::<ByzantiumSpec>(&mut interp);
    assert_eq!(interp.instruction_result, InstructionResult::NotActivated);
    assert_eq!(interp.gas.spend(), 0);
    assert_eq!(interp.stack, vec![n(1), n(2)]);

    let mut interp = Interpreter::new(vec![n(1), n(2)], 100);
    bitwise::sar::<PetersburgSpec>(&mut interp);
    assert_eq!(interp.instruction_result, InstructionResult::Continue);
    assert_eq!(interp.stack, vec![n(0)]);
}

#[test]
fn lower_stack_is_kept() {
    let mut interp = Interpreter::new(vec![n(9), n(8), n(1), n(2)], 100);
    bitwise::gt(&mut interp);
    assert_eq!(interp.stack, vec![n(9), n(8), n(1)]);
    bitwise::iszero(&mut interp);
    assert_eq!(interp.stack, vec![n(9), n(8), n(0)]);
    assert_eq!(interp.gas.spend(), 6);
    assert_eq!(interp.gas.remaining(), 94);
}
