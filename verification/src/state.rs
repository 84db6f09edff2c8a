use vstd::prelude::*;
use crate::config::Config;
use crate::debt::DebtLedger;
use crate::ledger::PairLedger;
use crate::vault::VaultLedger;

verus! {

/// Everything the credit manager persists: the governance configuration and
/// the three ledgers. All mutation is routed through the dispatch pipeline's
/// steps; the host keeps the whole value transactional, discarding it when a
/// step fails.
#[derive(Debug)]
pub struct State {
    pub config: Config,
    pub balances: PairLedger,
    pub debt: DebtLedger,
    pub vaults: VaultLedger,
}

impl State {
    pub open spec fn wf(self) -> bool {
        &&& self.config.wf()
        &&& self.balances.wf()
        &&& self.debt.wf()
        &&& self.vaults.wf()
    }

    /// A fresh state around a configuration: empty ledgers.
    pub fn new(config: Config) -> (r: State)
        requires
            config.wf(),
        ensures
            r.wf(),
            r.config == config,
            forall|a: Seq<char>, d: Seq<char>| r.balances.amount_of(a, d) == 0,
            forall|a: Seq<char>, d: Seq<char>| r.debt.shares_of(a, d) == 0,
            forall|d: Seq<char>| r.debt.total_of(d) == 0,
            forall|a: Seq<char>, v: Seq<char>| r.vaults.view_of(a, v) is None,
            forall|a: Seq<char>| r.vaults.position_count_of(a) == 0,
    {
        State {
            config,
            balances: PairLedger::new(),
            debt: DebtLedger::new(),
            vaults: VaultLedger::new(),
        }
    }
}

} // verus!
