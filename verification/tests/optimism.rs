use revm::gas::Gas;
use revm::interpreter::InstructionResult;
use revm::optimism::{calculate_gas_refund, handle_call_return, reward_beneficiary};
use revm::u256::U256;
use revm::primitives::{BedrockSpec, BerlinSpec, Env, LondonSpec, RegolithSpec, B256};

#[test]
fn test_revert_gas() {
    let mut env = Env::default();
    env.tx.gas_limit = 100;
    env.cfg.optimism = true;
    env.tx.optimism.source_hash = None;

    let gas = handle_call_return::<BedrockSpec>(&env, InstructionResult::Revert, Gas::new(90));
    assert_eq!(gas.remaining(), 90);
    assert_eq!(gas.spend(), 10);
    assert_eq!(gas.refunded(), 0);
}

#[test]
fn test_revert_gas_non_optimism() {
    let mut env = Env::default();
    env.tx.gas_limit = 100;
    env.cfg.optimism = false;
    env.tx.optimism.source_hash = None;

    let gas = handle_call_return::<BedrockSpec>(&env, InstructionResult::Revert, Gas::new(90));
    // else branch takes all gas.
    assert_eq!(gas.remaining(), 0);
    assert_eq!(gas.spend(), 100);
    assert_eq!(gas.refunded(), 0);
}

#[test]
fn test_consume_gas() {
    let mut env = Env::default();
    env.tx.gas_limit = 100;
    env.cfg.optimism = true;
    env.tx.optimism.source_hash = Some(B256::zero());

    let gas = handle_call_return::<RegolithSpec>(&env, InstructionResult::Stop, Gas::new(90));
    assert_eq!(gas.remaining(), 90);
    assert_eq!(gas.spend(), 10);
    assert_eq!(gas.refunded(), 0);
}

#[test]
fn test_consume_gas_with_refund() {
    let mut env = Env::default();
    env.tx.gas_limit = 100;
    env.cfg.optimism = true;
    env.tx.optimism.source_hash = Some(B256::zero());

    let mut ret_gas = Gas::new(90);
    ret_gas.record_refund(20);

    let gas =
        handle_call_return::<RegolithSpec>(&env, InstructionResult::Stop, ret_gas.clone());
    assert_eq!(gas.remaining(), 90);
    assert_eq!(gas.spend(), 10);
    assert_eq!(gas.refunded(), 20);

    let gas = handle_call_return::<RegolithSpec>(&env, InstructionResult::Revert, ret_gas);
    assert_eq!(gas.remaining(), 90);
    assert_eq!(gas.spend(), 10);
    assert_eq!(gas.refunded(), 0);
}

#[test]
fn test_consume_gas_sys_deposit_tx() {
    let mut env = Env::default();
    env.tx.gas_limit = 100;
    env.cfg.optimism = true;
    env.tx.optimism.source_hash = Some(B256::zero());

    let gas = handle_call_return::<BedrockSpec>(&env, InstructionResult::Stop, Gas::new(90));
    assert_eq!(gas.remaining(), 0);
    assert_eq!(gas.spend(), 100);
    assert_eq!(gas.refunded(), 0);
}

#[test]
fn bedrock_system_deposit_reports_no_gas_used() {
    let mut env = Env::default();
    env.tx.gas_limit = 100;
    env.cfg.optimism = true;
    env.tx.optimism.source_hash = Some(B256::zero());
    env.tx.optimism.is_system_transaction = Some(true);

    let gas = handle_call_return::<BedrockSpec>(&env, InstructionResult::Return, Gas::new(90));
    assert_eq!(gas.spend(), 0);
    assert_eq!(gas.remaining(), 100);
    assert_eq!(gas.refunded(), 0);

    // a reverted system deposit still pays its whole limit
    let gas = handle_call_return::<BedrockSpec>(&env, InstructionResult::Revert, Gas::new(90));
    assert_eq!(gas.spend(), 100);
}

#[test]
fn bedrock_regular_tx_keeps_refund() {
    let mut env = Env::default();
    env.tx.gas_limit = 1000;
    env.cfg.optimism = true;

    let mut ret_gas = Gas::new(400);
    assert!(ret_gas.record_cost(150));
    ret_gas.record_refund(7);
    let gas = handle_call_return::<BedrockSpec>(&env, InstructionResult::Continue, ret_gas);
    assert_eq!(gas.spend(), 750);
    assert_eq!(gas.remaining(), 250);
    assert_eq!(gas.refunded(), 7);
    assert_eq!(gas.limit(), 1000);
}

#[test]
fn halted_call_spends_everything() {
    let mut env = Env::default();
    env.tx.gas_limit = 100;
    env.cfg.optimism = true;

    let mut ret_gas = Gas::new(90);
    ret_gas.record_refund(5);
    let gas = handle_call_return::<RegolithSpec>(&env, InstructionResult::OutOfGas, ret_gas);
    assert_eq!(gas.spend(), 100);
    assert_eq!(gas.refunded(), 0);
}

fn spent_gas(spent: u64, refund: i64) -> Gas {
    let mut gas = Gas::new(1_000_000);
    assert!(gas.record_cost(spent));
    gas.record_refund(refund);
    gas
}

#[test]
fn refund_is_capped_by_spent_gas() {
    let env = Env::default();
    // London and later: at most a fifth of the gas spent
    assert_eq!(calculate_gas_refund::<LondonSpec>(&env, &spent_gas(1000, 500)), 200);
    assert_eq!(calculate_gas_refund::<LondonSpec>(&env, &spent_gas(1000, 150)), 150);
    // before London: at most half
    assert_eq!(calculate_gas_refund::<BerlinSpec>(&env, &spent_gas(1000, 800)), 500);
    assert_eq!(calculate_gas_refund::<BerlinSpec>(&env, &spent_gas(1000, 300)), 300);
}

#[test]
fn refund_counter_read_unsigned() {
    let env = Env::default();
    // a negative counter wraps around and is then capped
    assert_eq!(calculate_gas_refund::<LondonSpec>(&env, &spent_gas(1000, -1)), 200);
}

#[test]
fn no_refund_for_bedrock_deposits() {
    let mut env = Env::default();
    env.cfg.optimism = true;
    env.tx.optimism.source_hash = Some(B256::zero());
    assert_eq!(calculate_gas_refund::<BedrockSpec>(&env, &spent_gas(1000, 100)), 0);
    assert_eq!(calculate_gas_refund::<RegolithSpec>(&env, &spent_gas(1000, 100)), 100);
}

#[test]
fn no_refund_when_disabled() {
    let mut env = Env::default();
    env.cfg.disable_gas_refund = true;
    assert_eq!(calculate_gas_refund::<LondonSpec>(&env, &spent_gas(1000, 100)), 0);
}

#[test]
fn deposit_fees_tip_nobody() {
    let mut env = Env::default();
    env.cfg.optimism = true;
    env.tx.optimism.source_hash = Some(B256::zero());
    let rewards = reward_beneficiary(&env, &spent_gas(100, 0), U256::from_u64(5), U256::from_u64(2), U256::zero(), U256::zero());
    assert!(!rewards.pay_coinbase);
    assert!(rewards.vault_balances.is_none());
}

#[test]
fn regular_optimism_fees_reach_the_vaults() {
    let mut env = Env::default();
    env.cfg.optimism = true;
    env.tx.optimism.enveloped_tx = Some(vec![1, 2, 3]);
    let rewards = reward_beneficiary(
        &env,
        &spent_gas(100, 0),
        U256::from_u64(5),
        U256::from_u64(2),
        U256::from_u64(1000),
        U256::from_u64(10),
    );
    assert!(rewards.pay_coinbase);
    let (l1_vault, base_vault) = rewards.vault_balances.unwrap();
    assert_eq!(l1_vault, U256::from_u64(1005));
    assert_eq!(base_vault, U256::from_u64(210));
}

#[test]
fn non_optimism_fees_only_tip() {
    let env = Env::default();
    let rewards = reward_beneficiary(&env, &spent_gas(100, 0), U256::zero(), U256::zero(), U256::zero(), U256::zero());
    assert!(rewards.pay_coinbase);
    assert!(rewards.vault_balances.is_none());
}
