use vstd::prelude::*;

use crate::ledger::Balances;

verus! {

/// The whole ledger: its owner, the fee taken from every deposit, and the balances.
pub struct State {
    pub owner: String,
    pub fixed_fee: u128,
    pub balances: Balances,
}

impl State {
    pub open spec fn wf(&self) -> bool {
        self.balances.wf()
    }
}

} // verus!
