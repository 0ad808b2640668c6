//! Gas bookkeeping of one call frame.

use vstd::prelude::*;

verus! {

/// Cost of the cheapest class of instructions (comparisons, bitwise
/// operations, shifts).
pub const VERYLOW: u64 = 3;

/// What a [`Gas`] records: the limit it was made with, the gas spent so
/// far and the refund counter.
pub struct GasState {
    pub limit: u64,
    pub spent: u64,
    pub refunded: i64,
}

/// `gas` after `cost` more was spent.
pub open spec fn charged(gas: GasState, cost: u64) -> GasState {
    GasState { spent: (gas.spent + cost) as u64, ..gas }
}

/// `gas` after `returned` of the spent gas was given back.
pub open spec fn erased(gas: GasState, returned: u64) -> GasState {
    GasState { spent: (gas.spent - returned) as u64, ..gas }
}

/// `gas` after `refund` was added to the refund counter.
pub open spec fn refund_recorded(gas: GasState, refund: i64) -> GasState {
    GasState { refunded: (gas.refunded + refund) as i64, ..gas }
}

/// The cheapest instructions cost three gas.
pub proof fn law_verylow_cost()
    ensures
        VERYLOW == 3,
{
}

/// Spending `cost` adds it to the gas spent; giving back `returned`
/// subtracts it; recording a refund adds to the counter; none of them
/// touches anything else.
pub proof fn law_gas_updates(gas: GasState, cost: u64, returned: u64, refund: i64)
    requires
        gas.spent + cost <= u64::MAX,
        returned <= gas.spent,
        i64::MIN <= gas.refunded + refund <= i64::MAX,
    ensures
        charged(gas, cost).spent == gas.spent + cost,
        charged(gas, cost).limit == gas.limit,
        charged(gas, cost).refunded == gas.refunded,
        erased(gas, returned).spent == gas.spent - returned,
        erased(gas, returned).limit == gas.limit,
        erased(gas, returned).refunded == gas.refunded,
        refund_recorded(gas, refund).refunded == gas.refunded + refund,
        refund_recorded(gas, refund).limit == gas.limit,
        refund_recorded(gas, refund).spent == gas.spent,
{
}

/// Giving back what was just spent restores the gas as it was.
pub proof fn law_erase_undoes_record(gas: GasState, cost: u64)
    requires
        gas.spent + cost <= gas.limit,
    ensures
        erased(charged(gas, cost), cost) == gas,
{
}

/// Gas of one call frame. The gas spent never exceeds the limit.
#[derive(Clone, Copy, Debug)]
pub struct Gas {
    limit: u64,
    used: u64,
    refunded: i64,
}

impl View for Gas {
    type V = GasState;

    closed spec fn view(&self) -> GasState {
        GasState { limit: self.limit, spent: self.used, refunded: self.refunded }
    }
}

impl Gas {
    #[verifier::type_invariant]
    spec fn spent_within_limit(self) -> bool {
        self.used <= self.limit
    }

    /// Fresh gas with the given limit: nothing spent, nothing refunded.
    pub fn new(limit: u64) -> (r: Gas)
        ensures
            r@ == (GasState { limit, spent: 0, refunded: 0 }),
    {
        Gas { limit, used: 0, refunded: 0 }
    }

    pub fn limit(&self) -> (r: u64)
        ensures
            r == self@.limit,
    {
        self.limit
    }

    pub fn refunded(&self) -> (r: i64)
        ensures
            r == self@.refunded,
    {
        self.refunded
    }

    /// The gas spent so far.
    pub fn spend(&self) -> (r: u64)
        ensures
            r == self@.spent,
            self@.spent <= self@.limit,
    {
        proof {
            use_type_invariant(self);
        }
        self.used
    }

    /// The gas still available: limit minus what was spent.
    pub fn remaining(&self) -> (r: u64)
        ensures
            r == self@.limit - self@.spent,
            self@.spent <= self@.limit,
    {
        proof {
            use_type_invariant(self);
        }
        self.limit - self.used
    }

    /// Spends `cost` if it is still available; tells whether it was.
    pub fn record_cost(&mut self, cost: u64) -> (ok: bool)
        ensures
            ok == (old(self)@.spent + cost <= old(self)@.limit),
            ok ==> final(self)@ == charged(old(self)@, cost),
            ok ==> final(self)@.spent == old(self)@.spent + cost,
            final(self)@.limit == old(self)@.limit,
            final(self)@.refunded == old(self)@.refunded,
            !ok ==> final(self)@ == old(self)@,
    {
        proof {
            use_type_invariant(&*self);
        }
        if cost > self.limit - self.used {
            return false;
        }
        self.used = self.used + cost;
        true
    }

    /// Gives back `returned` of the gas spent.
    pub fn erase_cost(&mut self, returned: u64)
        requires
            returned <= old(self)@.spent,
        ensures
            final(self)@ == erased(old(self)@, returned),
            final(self)@.spent == old(self)@.spent - returned,
            final(self)@.limit == old(self)@.limit,
            final(self)@.refunded == old(self)@.refunded,
    {
        proof {
            use_type_invariant(&*self);
        }
        self.used = self.used - returned;
    }

    /// Adds `refund` to the refund counter.
    pub fn record_refund(&mut self, refund: i64)
        requires
            i64::MIN <= old(self)@.refunded + refund <= i64::MAX,
        ensures
            final(self)@ == refund_recorded(old(self)@, refund),
            final(self)@.refunded == old(self)@.refunded + refund,
            final(self)@.limit == old(self)@.limit,
            final(self)@.spent == old(self)@.spent,
    {
        proof {
            use_type_invariant(&*self);
        }
        self.refunded = self.refunded + refund;
    }
}

} // verus!
