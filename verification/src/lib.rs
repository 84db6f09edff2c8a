//! Core accounting and liquidation logic of a leveraged-position credit
//! manager: a debt-share ledger, a vault-position state machine, a liquidation
//! engine and an action-dispatch pipeline, all guarded by a global solvency
//! invariant. Collaborators (price oracle, lending pool, vaults, health
//! evaluator, ownership registry) are consulted by the host; their answers
//! enter the library as plain values.

pub mod types;
pub mod math;
pub mod ledger;
pub mod config;
pub mod debt;
pub mod vault;
pub mod vault_ops;
pub mod liquidate;
pub mod health;
pub mod balance_ops;
pub mod state;
pub mod dispatch;
pub mod query;
