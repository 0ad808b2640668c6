use revm::inspector::{inspector_step_continues, make_inspector_instruction_table};
use revm::interpreter::InstructionResult;

#[test]
fn step_hook_decides() {
    assert!(inspector_step_continues(InstructionResult::Continue));
    assert!(!inspector_step_continues(InstructionResult::Stop));
    assert!(!inspector_step_continues(InstructionResult::OutOfGas));
}

#[test]
fn every_entry_is_inspected() {
    let mut table = [0u8; 256];
    for (i, slot) in table.iter_mut().enumerate() {
        *slot = i as u8;
    }
    let boxed = make_inspector_instruction_table(&table, |op: u8| (op, true));
    assert_eq!(boxed.len(), 256);
    for (i, entry) in boxed.iter().enumerate() {
        assert_eq!(entry.0 as usize, i);
        assert!(entry.1);
    }
}
