//! The state an instruction works on: the operand stack, the gas of the
//! frame and the result of the last instruction.

use vstd::prelude::*;
use crate::u256::U256;
use crate::gas::{Gas, GasState, charged};

verus! {

/// How an instruction, or a whole call, ended.
#[derive(Clone, Copy, Debug, PartialEq, Eq, Structural)]
pub enum InstructionResult {
    Continue,
    Stop,
    Return,
    SelfDestruct,
    Revert,
    CallTooDeep,
    OutOfFund,
    OutOfGas,
    MemoryOOG,
    MemoryLimitOOG,
    PrecompileOOG,
    InvalidOperandOOG,
    OpcodeNotFound,
    CallNotAllowedInsideStatic,
    StateChangeDuringStaticCall,
    InvalidFEOpcode,
    InvalidJump,
    NotActivated,
    StackUnderflow,
    StackOverflow,
    OutOfOffset,
    CreateCollision,
    OverflowPayment,
    PrecompileError,
    NonceOverflow,
    CreateContractSizeLimit,
    CreateContractStartingWithEF,
    CreateInitcodeSizeLimit,
    FatalExternalError,
}

/// The results that end a call successfully.
pub open spec fn is_ok_result(r: InstructionResult) -> bool {
    r is Continue || r is Stop || r is Return || r is SelfDestruct
}

/// The results that revert a call.
pub open spec fn is_revert_result(r: InstructionResult) -> bool {
    r is Revert || r is CallTooDeep || r is OutOfFund
}

/// The successful results are exactly Continue, Stop, Return and
/// SelfDestruct, and the reverting ones exactly Revert, CallTooDeep and
/// OutOfFund; no result is both.
pub proof fn law_result_classes(r: InstructionResult)
    ensures
        is_ok_result(r) <==> (r == InstructionResult::Continue || r == InstructionResult::Stop || r
            == InstructionResult::Return || r == InstructionResult::SelfDestruct),
        is_revert_result(r) <==> (r == InstructionResult::Revert || r
            == InstructionResult::CallTooDeep || r == InstructionResult::OutOfFund),
        !(is_ok_result(r) && is_revert_result(r)),
{
}

impl InstructionResult {
    pub fn is_ok(&self) -> (r: bool)
        ensures
            r == is_ok_result(*self),
    {
        match self {
            InstructionResult::Continue | InstructionResult::Stop | InstructionResult::Return
            | InstructionResult::SelfDestruct => true,
            _ => false,
        }
    }

    pub fn is_revert(&self) -> (r: bool)
        ensures
            r == is_revert_result(*self),
    {
        match self {
            InstructionResult::Revert | InstructionResult::CallTooDeep
            | InstructionResult::OutOfFund => true,
            _ => false,
        }
    }
}

/// Operand stack (the top is the last element), gas and status of a frame.
pub struct Interpreter {
    pub stack: Vec<U256>,
    pub gas: Gas,
    pub instruction_result: InstructionResult,
}

impl Interpreter {
    /// A frame with the given stack, `gas_limit` gas and status `Continue`.
    pub fn new(stack: Vec<U256>, gas_limit: u64) -> (r: Interpreter)
        ensures
            r.stack@ == stack@,
            r.gas@ == (GasState { limit: gas_limit, spent: 0, refunded: 0 }),
            r.instruction_result == InstructionResult::Continue,
    {
        Interpreter { stack, gas: Gas::new(gas_limit), instruction_result: InstructionResult::Continue }
    }
}

/// The operand `k` places below the top of the stack.
pub open spec fn operand(pre: Interpreter, k: int) -> U256 {
    pre.stack@[pre.stack@.len() - 1 - k]
}

/// The effect of an instruction of cost `cost` that replaces its top
/// `arity` operands (`arity` is 1 or 2) by the word of value `value`:
/// without the gas it stops with `OutOfGas` and changes nothing else;
/// with the gas but too few operands it stops with `StackUnderflow`;
/// otherwise it charges the gas, and the stack loses its top `arity`
/// words and gains the result.
pub open spec fn stack_op(pre: Interpreter, post: Interpreter, cost: u64, arity: nat, value: nat) -> bool {
    let n = pre.stack@.len();
    if pre.gas@.spent + cost > pre.gas@.limit {
        &&& post.instruction_result == InstructionResult::OutOfGas
        &&& post.gas@ == pre.gas@
        &&& post.stack@ == pre.stack@
    } else if n < arity {
        &&& post.instruction_result == InstructionResult::StackUnderflow
        &&& post.gas@ == charged(pre.gas@, cost)
        &&& post.stack@ == pre.stack@
    } else {
        &&& post.instruction_result == pre.instruction_result
        &&& post.gas@ == charged(pre.gas@, cost)
        &&& post.stack@.len() == n - arity + 1
        &&& post.stack@.take(n - arity) == pre.stack@.take(n - arity)
        &&& post.stack@[n - arity]@ == value
    }
}

/// Like [`stack_op`], for an instruction that only exists from some
/// hardfork on: when it is not `activated` it stops with `NotActivated`
/// and changes nothing else.
pub open spec fn gated_stack_op(
    pre: Interpreter,
    post: Interpreter,
    activated: bool,
    cost: u64,
    arity: nat,
    value: nat,
) -> bool {
    if !activated {
        &&& post.instruction_result == InstructionResult::NotActivated
        &&& post.gas@ == pre.gas@
        &&& post.stack@ == pre.stack@
    } else {
        stack_op(pre, post, cost, arity, value)
    }
}

/// The operands are read from the top of the stack down, and an
/// instruction's effect is: without the gas, `OutOfGas` and nothing else
/// changed; with the gas but too few operands, `StackUnderflow`, the gas
/// charged and the stack unchanged; otherwise the gas charged, the status
/// kept, the operands replaced by the result and every word below them
/// left in place.
pub proof fn law_stack_op_effect(pre: Interpreter, post: Interpreter, cost: u64, arity: nat, value: nat)
    requires
        stack_op(pre, post, cost, arity, value),
        1 <= arity <= 2,
    ensures
        pre.stack@.len() >= 1 ==> operand(pre, 0) == pre.stack@[pre.stack@.len() - 1],
        pre.stack@.len() >= 2 ==> operand(pre, 1) == pre.stack@[pre.stack@.len() - 2],
        pre.gas@.spent + cost > pre.gas@.limit ==> {
            &&& post.instruction_result == InstructionResult::OutOfGas
            &&& post.gas@ == pre.gas@
            &&& post.stack@ == pre.stack@
        },
        pre.gas@.spent + cost <= pre.gas@.limit ==> {
            &&& post.gas@.spent == pre.gas@.spent + cost
            &&& post.gas@.limit == pre.gas@.limit
            &&& post.gas@.refunded == pre.gas@.refunded
        },
        pre.gas@.spent + cost <= pre.gas@.limit && pre.stack@.len() < arity ==> {
            &&& post.instruction_result == InstructionResult::StackUnderflow
            &&& post.stack@ == pre.stack@
        },
        pre.gas@.spent + cost <= pre.gas@.limit && pre.stack@.len() >= arity ==> {
            &&& post.instruction_result == pre.instruction_result
            &&& post.stack@.len() == pre.stack@.len() - arity + 1
            &&& post.stack@[post.stack@.len() - 1]@ == value
            &&& forall|i: int| 0 <= i < pre.stack@.len() - arity ==> #[trigger] post.stack@[i] == pre.stack@[i]
        },
{
    let n = pre.stack@.len();
    if pre.gas@.spent + cost <= pre.gas@.limit && n >= arity {
        assert forall|i: int| 0 <= i < n - arity implies #[trigger] post.stack@[i] == pre.stack@[i] by {
            assert(post.stack@.take(n - arity)[i] == post.stack@[i]);
            assert(pre.stack@.take(n - arity)[i] == pre.stack@[i]);
        }
    }
}

/// An instruction that is not yet activated stops with `NotActivated` and
/// changes neither the stack nor the gas; once activated it behaves as
/// [`stack_op`] says.
pub proof fn law_gated_stack_op(pre: Interpreter, post: Interpreter, activated: bool, cost: u64, arity: nat, value: nat)
    requires
        gated_stack_op(pre, post, activated, cost, arity, value),
    ensures
        !activated ==> post.instruction_result == InstructionResult::NotActivated && post.gas@ == pre.gas@
            && post.stack@ == pre.stack@,
        activated ==> stack_op(pre, post, cost, arity, value),
{
}

/// Charges `cost`; without enough gas, marks the frame `OutOfGas`.
pub fn charge(interpreter: &mut Interpreter, cost: u64) -> (ok: bool)
    ensures
        ok == (old(interpreter).gas@.spent + cost <= old(interpreter).gas@.limit),
        ok ==> final(interpreter).gas@ == charged(old(interpreter).gas@, cost),
        ok ==> final(interpreter).instruction_result == old(interpreter).instruction_result,
        !ok ==> final(interpreter).gas@ == old(interpreter).gas@,
        !ok ==> final(interpreter).instruction_result == InstructionResult::OutOfGas,
        final(interpreter).stack@ == old(interpreter).stack@,
{
    if !interpreter.gas.record_cost(cost) {
        interpreter.instruction_result = InstructionResult::OutOfGas;
        return false;
    }
    true
}

/// Pops the top operand and the one below it; with fewer than two
/// operands, marks the frame `StackUnderflow` and pops nothing.
pub fn pop_two(interpreter: &mut Interpreter) -> (r: Option<(U256, U256)>)
    ensures
        final(interpreter).gas@ == old(interpreter).gas@,
        old(interpreter).stack@.len() < 2 ==> {
            &&& r is None
            &&& final(interpreter).stack@ == old(interpreter).stack@
            &&& final(interpreter).instruction_result == InstructionResult::StackUnderflow
        },
        old(interpreter).stack@.len() >= 2 ==> {
            &&& r == Some((operand(*old(interpreter), 0), operand(*old(interpreter), 1)))
            &&& final(interpreter).stack@ == old(interpreter).stack@.take(old(interpreter).stack@.len() - 2)
            &&& final(interpreter).instruction_result == old(interpreter).instruction_result
        },
{
    if interpreter.stack.len() < 2 {
        interpreter.instruction_result = InstructionResult::StackUnderflow;
        return None;
    }
    let first = interpreter.stack.pop().unwrap();
    let second = interpreter.stack.pop().unwrap();
    proof {
        assert(interpreter.stack@ =~= old(interpreter).stack@.take(old(interpreter).stack@.len() - 2));
    }
    Some((first, second))
}

/// Pops the top operand; on an empty stack, marks the frame
/// `StackUnderflow` and pops nothing.
pub fn pop_one(interpreter: &mut Interpreter) -> (r: Option<U256>)
    ensures
        final(interpreter).gas@ == old(interpreter).gas@,
        old(interpreter).stack@.len() < 1 ==> {
            &&& r is None
            &&& final(interpreter).stack@ == old(interpreter).stack@
            &&& final(interpreter).instruction_result == InstructionResult::StackUnderflow
        },
        old(interpreter).stack@.len() >= 1 ==> {
            &&& r == Some(operand(*old(interpreter), 0))
            &&& final(interpreter).stack@ == old(interpreter).stack@.take(old(interpreter).stack@.len() - 1)
            &&& final(interpreter).instruction_result == old(interpreter).instruction_result
        },
{
    if interpreter.stack.len() < 1 {
        interpreter.instruction_result = InstructionResult::StackUnderflow;
        return None;
    }
    let first = interpreter.stack.pop().unwrap();
    proof {
        assert(interpreter.stack@ =~= old(interpreter).stack@.take(old(interpreter).stack@.len() - 1));
    }
    Some(first)
}

} // verus!
