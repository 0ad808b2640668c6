//! Gas accounting of Optimism transactions when a call returns, and the
//! refund a transaction receives.

use vstd::prelude::*;
use crate::gas::{Gas, GasState};
use crate::interpreter::{InstructionResult, is_ok_result, is_revert_result};
use crate::primitives::{Env, Spec, SpecId, is_enabled_in};
use crate::u256::U256;
use vstd::arithmetic::power2::pow2;

verus! {

/// Deposit transactions are the ones that carry a source hash.
pub open spec fn is_deposit(env: Env) -> bool {
    env.tx.optimism.source_hash is Some
}

/// A deposit marked as a system transaction (unmarked counts as not).
pub open spec fn is_system_tx(env: Env) -> bool {
    env.tx.optimism.is_system_transaction == Some(true)
}

/// Whether the gas a call used is reported as such: on an Optimism chain,
/// for regular transactions, and for deposits from Regolith on.
pub open spec fn reports_used_gas(env: Env, regolith: bool) -> bool {
    env.cfg.optimism && (!is_deposit(env) || regolith)
}

/// The gas a transaction ends with after its call returned `call_result`
/// with `returned` gas left, under a hardfork that is (`regolith`) or is
/// not Regolith or later.
pub open spec fn call_return_gas(
    env: Env,
    regolith: bool,
    call_result: InstructionResult,
    returned: GasState,
) -> GasState {
    let limit = env.tx.gas_limit;
    let remaining = returned.limit - returned.spent;
    if is_ok_result(call_result) {
        if reports_used_gas(env, regolith) {
            GasState { limit, spent: (limit - remaining) as u64, refunded: returned.refunded }
        } else if is_deposit(env) && is_system_tx(env) {
            GasState { limit, spent: 0, refunded: 0 }
        } else {
            GasState { limit, spent: limit, refunded: 0 }
        }
    } else if is_revert_result(call_result) && reports_used_gas(env, regolith) {
        GasState { limit, spent: (limit - remaining) as u64, refunded: 0 }
    } else {
        GasState { limit, spent: limit, refunded: 0 }
    }
}

/// The gas of the transaction once its call returned `call_result` with
/// `returned_gas`: the whole gas limit is spent, and gas is given back
/// according to the Bedrock and Regolith rules.
pub fn handle_call_return<SPEC: Spec>(env: &Env, call_result: InstructionResult, returned_gas: Gas) -> (r: Gas)
    requires
        (is_ok_result(call_result) || is_revert_result(call_result))
            && reports_used_gas(*env, is_enabled_in(SPEC::hardfork(), SpecId::REGOLITH))
            ==> returned_gas@.limit - returned_gas@.spent <= env.tx.gas_limit,
    ensures
        r@ == call_return_gas(*env, is_enabled_in(SPEC::hardfork(), SpecId::REGOLITH), call_result, returned_gas@),
{
    let is_deposit = env.tx.optimism.source_hash.is_some();
    let is_optimism = env.cfg.optimism;
    let tx_system = env.tx.optimism.is_system_transaction;
    let tx_gas_limit = env.tx.gas_limit;
    let is_regolith = SPEC::enabled(SpecId::REGOLITH);
    // Spend the gas limit. Gas is reimbursed when the tx returns successfully.
    let mut gas = Gas::new(tx_gas_limit);
    gas.record_cost(tx_gas_limit);

    if call_result.is_ok() {
        // Bedrock: deposits report their gas limit as used (system ones
        // report nothing), regular transactions report what they used.
        // Regolith: every transaction reports what it used, with refunds.
        if is_optimism && (!is_deposit || is_regolith) {
            gas.erase_cost(returned_gas.remaining());
            gas.record_refund(returned_gas.refunded());
        } else if is_deposit && tx_system.unwrap_or(false) {
            gas.erase_cost(tx_gas_limit);
        }
    } else if call_result.is_revert() {
        // Bedrock: deposits report their gas limit as used. Regolith and
        // regular transactions get the remaining gas back, never a refund.
        if is_optimism && (!is_deposit || is_regolith) {
            gas.erase_cost(returned_gas.remaining());
        }
    }
    gas
}

/// Who is paid the fees of a transaction.
pub struct BeneficiaryRewards {
    /// Whether the block's beneficiary receives its tip.
    pub pay_coinbase: bool,
    /// The new balances of the L1 fee vault and of the base fee vault,
    /// when these are paid.
    pub vault_balances: Option<(U256, U256)>,
}

/// The payout of the fees of a transaction that spent `gas`: deposits on an
/// Optimism chain tip nobody; other transactions tip the beneficiary; on an
/// Optimism chain, a regular transaction also pays its L1 cost `l1_cost`
/// to the L1 fee vault and its gas spent times the L1 base fee
/// `l1_base_fee` to the base fee vault (balances wrap modulo 2^256).
pub fn reward_beneficiary(
    env: &Env,
    gas: &Gas,
    l1_cost: U256,
    l1_base_fee: U256,
    l1_fee_vault_balance: U256,
    base_fee_vault_balance: U256,
) -> (r: BeneficiaryRewards)
    requires
        env.cfg.optimism && !is_deposit(*env) ==> env.tx.optimism.enveloped_tx is Some,
    ensures
        r.pay_coinbase == !(env.cfg.optimism && is_deposit(*env)),
        r.vault_balances is Some <==> env.cfg.optimism && !is_deposit(*env),
        r.vault_balances matches Some((l1_vault, base_vault)) ==> {
            &&& l1_vault@ == ((l1_fee_vault_balance@ + l1_cost@) as int) % (pow2(256) as int)
            &&& base_vault@ == (base_fee_vault_balance@ + (l1_base_fee@ * gas@.spent) % (pow2(256) as int))
                % (pow2(256) as int)
        },
{
    let is_deposit = env.cfg.optimism && env.tx.optimism.source_hash.is_some();
    let disable_coinbase_tip = env.cfg.optimism && is_deposit;
    let vault_balances = if env.cfg.optimism && !is_deposit {
        // fees of regular transactions go to both the L1 fee vault and the
        // base fee vault
        let l1_vault = l1_fee_vault_balance.wrapping_add(&l1_cost);
        let base_fee = l1_base_fee.wrapping_mul_u64(gas.spend());
        let base_vault = base_fee_vault_balance.wrapping_add(&base_fee);
        Some((l1_vault, base_vault))
    } else {
        None
    };
    BeneficiaryRewards { pay_coinbase: !disable_coinbase_tip, vault_balances }
}

/// The refund counter read as an unsigned number, wrapping negative
/// values around 2^64.
pub open spec fn refund_as_u64(refunded: i64) -> nat {
    if refunded >= 0 {
        refunded as nat
    } else {
        (refunded + 0x1_0000_0000_0000_0000) as nat
    }
}

/// The gas refunded to a transaction that ends with `gas`, under a
/// hardfork that is (`london`) or is not London or later, and is
/// (`regolith`) or is not Regolith or later.
pub open spec fn gas_refund(env: Env, london: bool, regolith: bool, gas: GasState) -> nat {
    let is_deposit = env.cfg.optimism && is_deposit(env);
    let refund_disabled = env.cfg.optimism && is_deposit && !regolith;
    if refund_disabled || env.cfg.disable_gas_refund {
        0
    } else {
        let quotient: nat = if london { 5 } else { 2 };
        let cap = gas.spent as nat / quotient;
        let counter = refund_as_u64(gas.refunded);
        if counter <= cap { counter } else { cap }
    }
}

/// The refund of a transaction that ends with `gas`: none for deposits
/// before Regolith or when refunds are disabled, else the refund counter
/// capped at a fifth of the gas spent from London on (half before).
pub fn calculate_gas_refund<SPEC: Spec>(env: &Env, gas: &Gas) -> (r: u64)
    ensures
        r == gas_refund(
            *env,
            is_enabled_in(SPEC::hardfork(), SpecId::LONDON),
            is_enabled_in(SPEC::hardfork(), SpecId::REGOLITH),
            gas@,
        ),
{
    let is_deposit = env.cfg.optimism && env.tx.optimism.source_hash.is_some();
    // Prior to Regolith, deposit transactions did not receive gas refunds.
    let is_gas_refund_disabled = env.cfg.optimism && is_deposit && !SPEC::enabled(SpecId::REGOLITH);
    if is_gas_refund_disabled || env.cfg.is_gas_refund_disabled() {
        0
    } else {
        // EIP-3529: Reduction in refunds
        let max_refund_quotient: u64 = if SPEC::enabled(SpecId::LONDON) { 5 } else { 2 };
        let refunded: i64 = gas.refunded();
        let counter: u64 = refunded as u64;
        proof {
            assert(refunded >= 0 ==> counter == refunded) by (bit_vector)
                requires
                    counter == refunded as u64,
            ;
            assert(refunded < 0 ==> counter == refunded + 0x1_0000_0000_0000_0000) by (bit_vector)
                requires
                    counter == refunded as u64,
            ;
        }
        let cap = gas.spend() / max_refund_quotient;
        if counter <= cap { counter } else { cap }
    }
}


/// Whatever the call returned, the transaction keeps its own gas limit and
/// never spends more than it.
pub proof fn law_call_return_within_limit(
    env: Env,
    regolith: bool,
    call_result: InstructionResult,
    returned: GasState,
)
    requires
        returned.spent <= returned.limit,
        (is_ok_result(call_result) || is_revert_result(call_result)) && reports_used_gas(env, regolith)
            ==> returned.limit - returned.spent <= env.tx.gas_limit,
    ensures
        call_return_gas(env, regolith, call_result, returned).limit == env.tx.gas_limit,
        call_return_gas(env, regolith, call_result, returned).spent <= env.tx.gas_limit,
{
}

/// A reverted call never carries a refund, and a call that halted on an
/// error spends the whole gas limit.
pub proof fn law_revert_and_halt(env: Env, regolith: bool, call_result: InstructionResult, returned: GasState)
    ensures
        is_revert_result(call_result) ==> call_return_gas(env, regolith, call_result, returned).refunded == 0,
        !is_ok_result(call_result) && !is_revert_result(call_result) ==> {
            &&& call_return_gas(env, regolith, call_result, returned).spent == env.tx.gas_limit
            &&& call_return_gas(env, regolith, call_result, returned).refunded == 0
        },
{
}

/// Off Optimism chains, a regular transaction spends its whole gas limit
/// and gets no refund, whatever the call returned.
pub proof fn law_non_optimism_takes_all_gas(
    env: Env,
    regolith: bool,
    call_result: InstructionResult,
    returned: GasState,
)
    requires
        !env.cfg.optimism,
        !is_deposit(env),
    ensures
        call_return_gas(env, regolith, call_result, returned).spent == env.tx.gas_limit,
        call_return_gas(env, regolith, call_result, returned).refunded == 0,
{
}

/// Bedrock deposits: a successful system deposit reports no gas used; any
/// other deposit reports its whole gas limit as used; none gets a refund.
pub proof fn law_bedrock_deposits(env: Env, call_result: InstructionResult, returned: GasState)
    requires
        env.cfg.optimism,
        is_deposit(env),
    ensures
        call_return_gas(env, false, call_result, returned).refunded == 0,
        is_ok_result(call_result) && is_system_tx(env)
            ==> call_return_gas(env, false, call_result, returned).spent == 0,
        !(is_ok_result(call_result) && is_system_tx(env))
            ==> call_return_gas(env, false, call_result, returned).spent == env.tx.gas_limit,
{
}

/// From Regolith on, a deposit is accounted like a regular transaction:
/// two transactions that differ only in being a deposit end with the same
/// gas.
pub proof fn law_regolith_deposits_like_regular(
    deposit: Env,
    regular: Env,
    call_result: InstructionResult,
    returned: GasState,
)
    requires
        deposit.cfg.optimism,
        regular.cfg.optimism,
        deposit.tx.gas_limit == regular.tx.gas_limit,
    ensures
        call_return_gas(deposit, true, call_result, returned)
            == call_return_gas(regular, true, call_result, returned),
{
}

/// On an Optimism chain before Regolith a deposit gets no refund: the gas
/// it ends its call with carries none, and the refund computed for it at
/// the end of the transaction is zero, whatever its gas.
pub proof fn law_no_deposit_refund_before_regolith(
    env: Env,
    london: bool,
    call_result: InstructionResult,
    returned: GasState,
    final_gas: GasState,
)
    requires
        env.cfg.optimism,
        is_deposit(env),
    ensures
        call_return_gas(env, false, call_result, returned).refunded == 0,
        gas_refund(env, london, false, final_gas) == 0,
{
}

/// The refund is at most half the gas spent, and at most a fifth from
/// London on (EIP-3529).
pub proof fn law_refund_cap(env: Env, london: bool, regolith: bool, gas: GasState)
    ensures
        gas_refund(env, london, regolith, gas) <= gas.spent as nat / (if london { 5nat } else { 2nat }),
{
}

/// A transaction is a deposit exactly when it carries a source hash, and a
/// system transaction exactly when it is marked as one.
pub proof fn law_transaction_kinds(env: Env)
    ensures
        is_deposit(env) <==> env.tx.optimism.source_hash is Some,
        is_system_tx(env) <==> env.tx.optimism.is_system_transaction == Some(true),
{
}

/// The gas a transaction ends with, case by case on what its call
/// returned. Successes are Continue, Stop, Return and SelfDestruct; reverts
/// are Revert, CallTooDeep and OutOfFund; every other result is a halt.
/// With `remaining` the gas the call had left, and the gas "reported" on an
/// Optimism chain for regular transactions and, from Regolith on, for
/// deposits:
/// - a success reports `limit - remaining` spent and keeps the call's
///   refund; unreported, a system deposit spends nothing and anything else
///   spends the whole limit, without refund;
/// - a revert reports `limit - remaining` spent, or else the whole limit,
///   never with a refund;
/// - a halt spends the whole limit, without refund.
pub proof fn law_call_return_cases(env: Env, regolith: bool, call_result: InstructionResult, returned: GasState)
    ensures
        ({
            let limit = env.tx.gas_limit;
            let remaining = returned.limit - returned.spent;
            let deposit = env.tx.optimism.source_hash is Some;
            let system = env.tx.optimism.is_system_transaction == Some(true);
            let reported = env.cfg.optimism && (!deposit || regolith);
            let success = call_result == InstructionResult::Continue || call_result == InstructionResult::Stop
                || call_result == InstructionResult::Return || call_result == InstructionResult::SelfDestruct;
            let revert = call_result == InstructionResult::Revert || call_result
                == InstructionResult::CallTooDeep || call_result == InstructionResult::OutOfFund;
            let out = call_return_gas(env, regolith, call_result, returned);
            &&& out.limit == limit
            &&& success && reported ==> out.spent == (limit - remaining) as u64 && out.refunded
                == returned.refunded
            &&& success && !reported && deposit && system ==> out.spent == 0 && out.refunded == 0
            &&& success && !reported && !(deposit && system) ==> out.spent == limit && out.refunded
                == 0
            &&& revert && reported ==> out.spent == (limit - remaining) as u64 && out.refunded == 0
            &&& revert && !reported ==> out.spent == limit && out.refunded == 0
            &&& !success && !revert ==> out.spent == limit && out.refunded == 0
        }),
{
}

/// A call that halted on an error (such as an invalid opcode, a bad jump,
/// a stack underflow or running out of gas) spends the whole gas limit and
/// gets no refund, on every chain and under every hardfork.
pub proof fn law_halts_spend_the_limit(env: Env, regolith: bool, call_result: InstructionResult, returned: GasState)
    requires
        call_result == InstructionResult::OutOfGas || call_result == InstructionResult::MemoryOOG
            || call_result == InstructionResult::MemoryLimitOOG || call_result
            == InstructionResult::PrecompileOOG || call_result == InstructionResult::InvalidOperandOOG
            || call_result == InstructionResult::OpcodeNotFound || call_result
            == InstructionResult::CallNotAllowedInsideStatic || call_result
            == InstructionResult::StateChangeDuringStaticCall || call_result
            == InstructionResult::InvalidFEOpcode || call_result == InstructionResult::InvalidJump
            || call_result == InstructionResult::NotActivated || call_result
            == InstructionResult::StackUnderflow || call_result == InstructionResult::StackOverflow
            || call_result == InstructionResult::OutOfOffset || call_result
            == InstructionResult::CreateCollision || call_result == InstructionResult::OverflowPayment
            || call_result == InstructionResult::PrecompileError || call_result
            == InstructionResult::NonceOverflow || call_result == InstructionResult::CreateContractSizeLimit
            || call_result == InstructionResult::CreateContractStartingWithEF || call_result
            == InstructionResult::CreateInitcodeSizeLimit || call_result
            == InstructionResult::FatalExternalError,
    ensures
        call_return_gas(env, regolith, call_result, returned).spent == env.tx.gas_limit,
        call_return_gas(env, regolith, call_result, returned).refunded == 0,
{
}

/// The refund of a transaction: nothing when refunds are disabled or for a
/// deposit on an Optimism chain before Regolith; otherwise the refund
/// counter (read as unsigned, a negative counter wrapping around 2^64)
/// capped at the gas spent divided by five from London on, by two before.
/// In particular a transaction without a source hash gets the capped
/// counter whenever refunds are not disabled, whatever the chain and
/// hardfork.
pub proof fn law_refund_formula(env: Env, london: bool, regolith: bool, gas: GasState)
    ensures
        ({
            let counter: int = if gas.refunded >= 0 { gas.refunded as int } else { gas.refunded + 0x1_0000_0000_0000_0000 };
            let cap: int = gas.spent as int / (if london { 5int } else { 2int });
            let capped: int = if counter <= cap { counter } else { cap };
            let deposit = env.tx.optimism.source_hash is Some;
            &&& env.cfg.disable_gas_refund ==> gas_refund(env, london, regolith, gas) == 0
            &&& env.cfg.optimism && deposit && !regolith ==> gas_refund(env, london, regolith, gas) == 0
            &&& !env.cfg.disable_gas_refund && !(env.cfg.optimism && deposit && !regolith)
                ==> gas_refund(env, london, regolith, gas) == capped
            &&& !deposit && !env.cfg.disable_gas_refund ==> gas_refund(env, london, regolith, gas) == capped
        }),
{
}

} // verus!
