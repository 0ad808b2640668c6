//! The decisions of the inspector wrappers around instructions.

use vstd::prelude::*;
use crate::interpreter::InstructionResult;

verus! {

/// Whether an inspected instruction runs once the inspector's `step` hook
/// answered `step_result`: only when the hook let execution continue.
pub fn inspector_step_continues(step_result: InstructionResult) -> (r: bool)
    ensures
        r == (step_result == InstructionResult::Continue),
{
    match step_result {
        InstructionResult::Continue => true,
        _ => false,
    }
}

/// Builds the inspector table from `table`: every entry is the
/// instruction wrapped by `inspected`, the wrapper that calls the inspector
/// around it.
pub fn make_inspector_instruction_table<I: Copy, B, W: Fn(I) -> B>(
    table: &[I; 256],
    inspected: W,
) -> (r: Vec<B>)
    requires
        forall|i: int| 0 <= i < 256 ==> call_requires(inspected, (#[trigger] table[i],)),
    ensures
        r.len() == 256,
        forall|i: int| 0 <= i < 256 ==> call_ensures(inspected, (table[i],), #[trigger] r[i]),
{
    let mut r: Vec<B> = Vec::new();
    let mut i: usize = 0;
    while i < 256
        invariant
            i <= 256,
            r.len() == i,
            forall|j: int| 0 <= j < 256 ==> call_requires(inspected, (#[trigger] table[j],)),
            forall|j: int| 0 <= j < i ==> call_ensures(inspected, (table[j],), #[trigger] r[j]),
        decreases 256 - i,
    {
        let instruction = table[i];
        r.push(inspected(instruction));
        i = i + 1;
    }
    r
}

} // verus!
