use vstd::prelude::*;
use crate::balance_ops::{coin_amount_in, coin_amount_of, coin_denoms_distinct};
use crate::config::{Config, VaultConfig, VaultConfigEntry};
use crate::debt::{lemma_ratio_le_value, DebtLedger};
use crate::ledger::{
    account_coins_in, lemma_amount_at_index, pair_key_is, DenomEntry, PairEntry, PairLedger,
};
use crate::math::{mul_ratio_floor, ratio_floor};
use crate::state::State;
use crate::types::{Coin, ContractError};
use crate::vault::{VaultLedger, VaultPositionAmount, VaultPositionEntry};

verus! {

/// The page size used when a projection names none, and the largest one a
/// caller may ask for.
pub const DEFAULT_LIMIT: u32 = 10;

pub const MAX_LIMIT: u32 = 30;

/// The page length a request resolves to.
pub open spec fn resolved_limit(limit: Option<u32>) -> int {
    let l = match limit {
        Some(l) => l as int,
        None => DEFAULT_LIMIT as int,
    };
    if l <= MAX_LIMIT as int {
        l
    } else {
        MAX_LIMIT as int
    }
}

fn resolve_limit(limit: Option<u32>) -> (r: u32)
    ensures
        r == resolved_limit(limit),
{
    let l = match limit {
        Some(l) => l,
        None => DEFAULT_LIMIT,
    };
    if l <= MAX_LIMIT {
        l
    } else {
        MAX_LIMIT
    }
}

/// Where a page starts: right after the row the cursor names, or at the
/// beginning when no row holds the cursor key.
pub open spec fn pair_cursor(s: Seq<PairEntry>, a: Seq<char>, d: Seq<char>) -> int
    decreases s.len(),
{
    if s.len() == 0 {
        0
    } else if pair_key_is(s.last(), a, d) {
        s.len() as int
    } else {
        pair_cursor(s.drop_last(), a, d)
    }
}

proof fn lemma_pair_cursor_found(s: Seq<PairEntry>, i: int)
    requires
        crate::ledger::pair_keys_distinct(s),
        0 <= i < s.len(),
    ensures
        pair_cursor(s, s[i].account_id@, s[i].denom@) == i + 1,
    decreases s.len(),
{
    if i < s.len() - 1 {
        lemma_pair_cursor_found(s.drop_last(), i);
    }
}

proof fn lemma_pair_cursor_absent(s: Seq<PairEntry>, a: Seq<char>, d: Seq<char>)
    requires
        forall|i: int| 0 <= i < s.len() ==> !pair_key_is(s[i], a, d),
    ensures
        pair_cursor(s, a, d) == 0,
    decreases s.len(),
{
    if s.len() > 0 {
        lemma_pair_cursor_absent(s.drop_last(), a, d);
    }
}

/// Finds where a page of a (account, denom) ledger starts.
fn pair_page_start(ledger: &PairLedger, start_after: &Option<(String, String)>) -> (r: usize)
    requires
        ledger.wf(),
    ensures
        r == (match start_after {
            Some((a, d)) => pair_cursor(ledger.entries@, a@, d@),
            None => 0int,
        }),
        r <= ledger.entries@.len(),
{
    match start_after {
        None => 0,
        Some((a, d)) => {
            let n = ledger.entries.len();
            for i in 0..n
                invariant
                    ledger.wf(),
                    n == ledger.entries@.len(),
                    *start_after matches Some(p) && p.0@ == a@ && p.1@ == d@,
                    forall|j: int| 0 <= j < i ==> !pair_key_is(ledger.entries@[j], a@, d@),
            {
                if ledger.entries[i].account_id == *a && ledger.entries[i].denom == *d {
                    proof {
                        lemma_pair_cursor_found(ledger.entries@, i as int);
                    }
                    return i + 1;
                }
            }
            proof {
                lemma_pair_cursor_absent(ledger.entries@, a@, d@);
            }
            0
        },
    }
}

/// One row of a paginated balance projection.
#[derive(Debug, Clone, PartialEq, Eq)]
pub struct CoinBalanceResponseItem {
    pub account_id: String,
    pub denom: String,
    pub amount: u128,
}

/// One row of a paginated debt-share projection.
#[derive(Debug, Clone, PartialEq, Eq)]
pub struct SharesResponseItem {
    pub account_id: String,
    pub denom: String,
    pub shares: u128,
}

/// The total issued debt shares of one denom.
#[derive(Debug, Clone, PartialEq, Eq)]
pub struct DebtShares {
    pub denom: String,
    pub shares: u128,
}

/// An account's debt in one denom: the shares held and the amount they
/// currently convert to.
#[derive(Debug, Clone, PartialEq, Eq)]
pub struct DebtAmount {
    pub denom: String,
    pub shares: u128,
    pub amount: u128,
}

/// One (vault, position) pair of an account.
#[derive(Debug)]
pub struct VaultPosition {
    pub vault: String,
    pub amount: VaultPositionAmount,
}

/// One row of the all-vault-positions projection.
#[derive(Debug)]
pub struct VaultPositionResponseItem {
    pub account_id: String,
    pub position: VaultPosition,
}

/// A whitelisted vault and its configuration.
#[derive(Debug, Clone, PartialEq, Eq)]
pub struct VaultInfoResponse {
    pub vault: String,
    pub config: VaultConfig,
}

/// Everything an account holds: deposits, debts and vault positions.
#[derive(Debug)]
pub struct Positions {
    pub account_id: String,
    pub deposits: Vec<Coin>,
    pub debts: Vec<DebtAmount>,
    pub vaults: Vec<VaultPosition>,
}

/// The contract-level configuration, as a query response.
#[derive(Debug, Clone, PartialEq, Eq)]
pub struct ConfigResponse {
    pub owner: String,
    pub account_nft: Option<String>,
    pub red_bank: String,
    pub oracle: String,
    pub max_close_factor: u128,
    pub max_unlocking_positions: u128,
    pub swapper: String,
    pub zapper: String,
}

pub fn query_config(config: &Config) -> (r: ConfigResponse)
    ensures
        r.owner@ == config.owner@,
        r.account_nft is Some <==> config.account_nft is Some,
        (r.account_nft matches Some(n) ==> (config.account_nft matches Some(m) && n@ == m@)),
        r.red_bank@ == config.red_bank@,
        r.oracle@ == config.oracle@,
        r.max_close_factor == config.max_close_factor,
        r.max_unlocking_positions == config.max_unlocking_positions,
        r.swapper@ == config.swapper@,
        r.zapper@ == config.zapper@,
{
    ConfigResponse {
        owner: config.owner.clone(),
        account_nft: match &config.account_nft {
            Some(n) => Some(n.clone()),
            None => None,
        },
        red_bank: config.red_bank.clone(),
        oracle: config.oracle.clone(),
        max_close_factor: config.max_close_factor,
        max_unlocking_positions: config.max_unlocking_positions,
        swapper: config.swapper.clone(),
        zapper: config.zapper.clone(),
    }
}

/// The coins an account holds, in ledger order.
pub fn query_coin_balances(balances: &PairLedger, account_id: &String) -> (r: Vec<Coin>)
    requires
        balances.wf(),
    ensures
        r@ == balances.coins_of(account_id@),
{
    let mut r: Vec<Coin> = Vec::new();
    let n = balances.entries.len();
    proof {
        assert(balances.entries@.skip(0) =~= balances.entries@);
        assert(Seq::<Coin>::empty() + account_coins_in(balances.entries@, account_id@)
            =~= account_coins_in(balances.entries@, account_id@));
    }
    for i in 0..n
        invariant
            balances.wf(),
            n == balances.entries@.len(),
            r@ + account_coins_in(balances.entries@.skip(i as int), account_id@)
                == account_coins_in(balances.entries@, account_id@),
    {
        let ghost tail = balances.entries@.skip(i as int);
        proof {
            assert(tail.drop_first() =~= balances.entries@.skip(i + 1));
            assert(tail[0] == balances.entries@[i as int]);
        }
        if balances.entries[i].account_id == *account_id {
            r.push(
                Coin {
                    denom: balances.entries[i].denom.clone(),
                    amount: balances.entries[i].amount,
                },
            );
            proof {
                assert(r@ + account_coins_in(balances.entries@.skip(i + 1), account_id@)
                    =~= account_coins_in(balances.entries@, account_id@));
            }
        }
    }
    proof {
        assert(balances.entries@.skip(n as int) =~= Seq::<PairEntry>::empty());
        assert(r@ =~= account_coins_in(balances.entries@, account_id@));
    }
    r
}

/// An account's debts, each converted to the amount currently owed through
/// the pool's reported totals.
pub fn query_debt_amounts(debt: &DebtLedger, account_id: &String, pool_debts: &Vec<Coin>) -> (r:
    Vec<DebtAmount>)
    requires
        debt.wf(),
        coin_denoms_distinct(pool_debts@),
    ensures
        ({
            let rows = debt.shares.coins_of(account_id@);
            &&& r@.len() == rows.len()
            &&& forall|k: int|
                0 <= k < rows.len() ==> (#[trigger] r@[k]).denom@ == rows[k].denom@ && r@[k].shares
                    == rows[k].amount && r@[k].amount == ratio_floor(
                    coin_amount_in(pool_debts@, rows[k].denom@),
                    rows[k].amount,
                    debt.total_of(rows[k].denom@),
                )
        }),
{
    let mut r: Vec<DebtAmount> = Vec::new();
    let n = debt.shares.entries.len();
    let ghost rows = debt.shares.coins_of(account_id@);
    proof {
        assert(debt.shares.entries@.skip(0) =~= debt.shares.entries@);
        assert(rows.skip(0) =~= rows);
    }
    for i in 0..n
        invariant
            debt.wf(),
            coin_denoms_distinct(pool_debts@),
            n == debt.shares.entries@.len(),
            rows == debt.shares.coins_of(account_id@),
            r@.len() + account_coins_in(debt.shares.entries@.skip(i as int), account_id@).len()
                == rows.len(),
            account_coins_in(debt.shares.entries@.skip(i as int), account_id@) =~= rows.skip(
                r@.len() as int,
            ),
            forall|k: int|
                0 <= k < r@.len() ==> (#[trigger] r@[k]).denom@ == rows[k].denom@ && r@[k].shares
                    == rows[k].amount && r@[k].amount == ratio_floor(
                    coin_amount_in(pool_debts@, rows[k].denom@),
                    rows[k].amount,
                    debt.total_of(rows[k].denom@),
                ),
    {
        let ghost tail = debt.shares.entries@.skip(i as int);
        proof {
            assert(tail.drop_first() =~= debt.shares.entries@.skip(i + 1));
            assert(tail[0] == debt.shares.entries@[i as int]);
            if tail[0].account_id@ == account_id@ {
                assert(account_coins_in(tail, account_id@) == seq![
                    Coin { denom: tail[0].denom, amount: tail[0].amount },
                ] + account_coins_in(tail.drop_first(), account_id@));
                assert(rows.skip(r@.len() as int)[0] == (Coin {
                    denom: tail[0].denom,
                    amount: tail[0].amount,
                }));
            }
        }
        if debt.shares.entries[i].account_id == *account_id {
            let denom = debt.shares.entries[i].denom.clone();
            let shares = debt.shares.entries[i].amount;
            let total = debt.totals.get_amount(&denom);
            let pool = coin_amount_of(pool_debts, &denom);
            proof {
                lemma_amount_at_index(debt.shares.entries@, i as int);
                crate::ledger::lemma_amount_le_sum(debt.shares.entries@, account_id@, denom@);
                assert(debt.shares.sum_of(denom@) <= debt.totals.amount_of(denom@));
                lemma_ratio_le_value(pool, shares, total);
                assert(rows[r@.len() as int].denom@ == denom@ && rows[r@.len() as int].amount
                    == shares);
            }
            let amount = match mul_ratio_floor(pool, shares, total) {
                Ok(v) => v,
                Err(_) => {
                    proof {
                        assert(false);
                    }
                    0
                },
            };
            r.push(DebtAmount { denom, shares, amount });
            proof {
                assert(rows.skip(r@.len() - 1).drop_first() =~= rows.skip(r@.len() as int));
                assert(account_coins_in(tail, account_id@).drop_first() =~= account_coins_in(
                    tail.drop_first(),
                    account_id@,
                ));
                assert(account_coins_in(debt.shares.entries@.skip(i + 1), account_id@)
                    =~= rows.skip(r@.len() as int));
            }
        }
    }
    proof {
        assert(debt.shares.entries@.skip(n as int) =~= Seq::<PairEntry>::empty());
        assert(rows.skip(r@.len() as int) =~= Seq::<Coin>::empty());
    }
    r
}

/// The positions an account holds, in ledger order.
pub open spec fn account_positions_in(s: Seq<VaultPositionEntry>, a: Seq<char>) -> Seq<
    VaultPositionEntry,
>
    decreases s.len(),
{
    if s.len() == 0 {
        Seq::empty()
    } else if s[0].account_id@ == a {
        seq![s[0]] + account_positions_in(s.drop_first(), a)
    } else {
        account_positions_in(s.drop_first(), a)
    }
}

/// An account's vault positions, in ledger order.
pub fn query_vault_positions(vaults: &VaultLedger, account_id: &String) -> (r: Vec<VaultPosition>)
    requires
        vaults.wf(),
    ensures
        ({
            let rows = account_positions_in(vaults.entries@, account_id@);
            &&& r@.len() == rows.len()
            &&& forall|k: int|
                0 <= k < rows.len() ==> (#[trigger] r@[k]).vault@ == rows[k].vault_addr@
                    && r@[k].amount.unlocked == rows[k].amount.unlocked && r@[k].amount.locked
                    == rows[k].amount.locked && r@[k].amount.unlocking@
                    == rows[k].amount.unlocking@
        }),
{
    let mut r: Vec<VaultPosition> = Vec::new();
    let n = vaults.entries.len();
    let ghost rows = account_positions_in(vaults.entries@, account_id@);
    proof {
        assert(vaults.entries@.skip(0) =~= vaults.entries@);
        assert(rows.skip(0) =~= rows);
    }
    for i in 0..n
        invariant
            vaults.wf(),
            n == vaults.entries@.len(),
            rows == account_positions_in(vaults.entries@, account_id@),
            r@.len() + account_positions_in(vaults.entries@.skip(i as int), account_id@).len()
                == rows.len(),
            account_positions_in(vaults.entries@.skip(i as int), account_id@) =~= rows.skip(
                r@.len() as int,
            ),
            forall|k: int|
                0 <= k < r@.len() ==> (#[trigger] r@[k]).vault@ == rows[k].vault_addr@
                    && r@[k].amount.unlocked == rows[k].amount.unlocked && r@[k].amount.locked
                    == rows[k].amount.locked && r@[k].amount.unlocking@
                    == rows[k].amount.unlocking@,
    {
        let ghost tail = vaults.entries@.skip(i as int);
        proof {
            assert(tail.drop_first() =~= vaults.entries@.skip(i + 1));
            assert(tail[0] == vaults.entries@[i as int]);
            if tail[0].account_id@ == account_id@ {
                assert(account_positions_in(tail, account_id@) == seq![tail[0]]
                    + account_positions_in(tail.drop_first(), account_id@));
                assert(rows.skip(r@.len() as int)[0] == tail[0]);
            }
        }
        if vaults.entries[i].account_id == *account_id {
            proof {
                assert(rows[r@.len() as int] == vaults.entries@[i as int]);
            }
            r.push(
                VaultPosition {
                    vault: vaults.entries[i].vault_addr.clone(),
                    amount: vaults.entries[i].amount.duplicate(),
                },
            );
            proof {
                assert(rows.skip(r@.len() - 1).drop_first() =~= rows.skip(r@.len() as int));
                assert(account_positions_in(tail, account_id@).drop_first()
                    =~= account_positions_in(tail.drop_first(), account_id@));
                assert(account_positions_in(vaults.entries@.skip(i + 1), account_id@)
                    =~= rows.skip(r@.len() as int));
            }
        }
    }
    proof {
        assert(vaults.entries@.skip(n as int) =~= Seq::<VaultPositionEntry>::empty());
        assert(rows.skip(r@.len() as int) =~= Seq::<VaultPositionEntry>::empty());
    }
    r
}

/// Everything one account holds, with debts converted through the pool's
/// reported totals.
pub fn query_positions(state: &State, account_id: &String, pool_debts: &Vec<Coin>) -> (r: Positions)
    requires
        state.wf(),
        coin_denoms_distinct(pool_debts@),
    ensures
        r.account_id@ == account_id@,
        r.deposits@ == state.balances.coins_of(account_id@),
        ({
            let rows = state.debt.shares.coins_of(account_id@);
            &&& r.debts@.len() == rows.len()
            &&& forall|k: int|
                0 <= k < rows.len() ==> (#[trigger] r.debts@[k]).denom@ == rows[k].denom@
                    && r.debts@[k].shares == rows[k].amount && r.debts@[k].amount == ratio_floor(
                    coin_amount_in(pool_debts@, rows[k].denom@),
                    rows[k].amount,
                    state.debt.total_of(rows[k].denom@),
                )
        }),
        ({
            let rows = account_positions_in(state.vaults.entries@, account_id@);
            &&& r.vaults@.len() == rows.len()
            &&& forall|k: int|
                0 <= k < rows.len() ==> (#[trigger] r.vaults@[k]).vault@ == rows[k].vault_addr@
                    && r.vaults@[k].amount.unlocked == rows[k].amount.unlocked
                    && r.vaults@[k].amount.locked == rows[k].amount.locked
                    && r.vaults@[k].amount.unlocking@ == rows[k].amount.unlocking@
        }),
{
    Positions {
        account_id: account_id.clone(),
        deposits: query_coin_balances(&state.balances, account_id),
        debts: query_debt_amounts(&state.debt, account_id, pool_debts),
        vaults: query_vault_positions(&state.vaults, account_id),
    }
}

/// A page of every account's coin balances, starting right after the cursor
/// row.
pub fn query_all_coin_balances(
    balances: &PairLedger,
    start_after: Option<(String, String)>,
    limit: Option<u32>,
) -> (r: Vec<CoinBalanceResponseItem>)
    requires
        balances.wf(),
    ensures
        ({
            let start = match start_after {
                Some((a, d)) => pair_cursor(balances.entries@, a@, d@),
                None => 0int,
            };
            let cnt = if balances.entries@.len() - start <= resolved_limit(limit) {
                balances.entries@.len() - start
            } else {
                resolved_limit(limit)
            };
            &&& r@.len() == cnt
            &&& forall|k: int|
                0 <= k < cnt ==> (#[trigger] r@[k]).account_id@ == balances.entries@[start
                    + k].account_id@ && r@[k].denom@ == balances.entries@[start + k].denom@
                    && r@[k].amount == balances.entries@[start + k].amount
        }),
{
    let start = pair_page_start(balances, &start_after);
    let lim = resolve_limit(limit) as usize;
    let n = balances.entries.len();
    let stop = if n - start <= lim {
        n
    } else {
        start + lim
    };
    let mut r: Vec<CoinBalanceResponseItem> = Vec::new();
    for i in start..stop
        invariant
            balances.wf(),
            n == balances.entries@.len(),
            start <= i <= stop <= n,
            r@.len() == i - start,
            forall|k: int|
                0 <= k < i - start ==> (#[trigger] r@[k]).account_id@ == balances.entries@[start
                    + k].account_id@ && r@[k].denom@ == balances.entries@[start + k].denom@
                    && r@[k].amount == balances.entries@[start + k].amount,
    {
        r.push(
            CoinBalanceResponseItem {
                account_id: balances.entries[i].account_id.clone(),
                denom: balances.entries[i].denom.clone(),
                amount: balances.entries[i].amount,
            },
        );
    }
    r
}

/// A page of every account's debt shares, starting right after the cursor
/// row.
pub fn query_all_debt_shares(
    debt: &DebtLedger,
    start_after: Option<(String, String)>,
    limit: Option<u32>,
) -> (r: Vec<SharesResponseItem>)
    requires
        debt.wf(),
    ensures
        ({
            let s = debt.shares.entries@;
            let start = match start_after {
                Some((a, d)) => pair_cursor(s, a@, d@),
                None => 0int,
            };
            let cnt = if s.len() - start <= resolved_limit(limit) {
                s.len() - start
            } else {
                resolved_limit(limit)
            };
            &&& r@.len() == cnt
            &&& forall|k: int|
                0 <= k < cnt ==> (#[trigger] r@[k]).account_id@ == s[start + k].account_id@
                    && r@[k].denom@ == s[start + k].denom@ && r@[k].shares == s[start + k].amount
        }),
{
    let start = pair_page_start(&debt.shares, &start_after);
    let lim = resolve_limit(limit) as usize;
    let n = debt.shares.entries.len();
    let stop = if n - start <= lim {
        n
    } else {
        start + lim
    };
    let mut r: Vec<SharesResponseItem> = Vec::new();
    for i in start..stop
        invariant
            debt.wf(),
            n == debt.shares.entries@.len(),
            start <= i <= stop <= n,
            r@.len() == i - start,
            forall|k: int|
                0 <= k < i - start ==> (#[trigger] r@[k]).account_id@
                    == debt.shares.entries@[start + k].account_id@ && r@[k].denom@
                    == debt.shares.entries@[start + k].denom@ && r@[k].shares
                    == debt.shares.entries@[start + k].amount,
    {
        r.push(
            SharesResponseItem {
                account_id: debt.shares.entries[i].account_id.clone(),
                denom: debt.shares.entries[i].denom.clone(),
                shares: debt.shares.entries[i].amount,
            },
        );
    }
    r
}

/// The total issued debt shares for one denom; a denom no shares were ever
/// issued for has no row and is an error.
pub fn query_total_debt_shares(debt: &DebtLedger, denom: &String) -> (r: Result<
    DebtShares,
    ContractError,
>)
    requires
        debt.wf(),
    ensures
        r is Ok <==> (exists|i: int|
            0 <= i < debt.totals.entries@.len() && (#[trigger] debt.totals.entries@[i]).denom@
                == denom@),
        r matches Ok(ds) ==> ds.denom@ == denom@ && ds.shares == debt.total_of(denom@),
        r is Err ==> r == Err::<DebtShares, ContractError>(ContractError::NoDebt),
{
    let n = debt.totals.entries.len();
    for i in 0..n
        invariant
            debt.wf(),
            n == debt.totals.entries@.len(),
            forall|j: int| 0 <= j < i ==> (#[trigger] debt.totals.entries@[j]).denom@ != denom@,
    {
        if debt.totals.entries[i].denom == *denom {
            proof {
                crate::ledger::lemma_denom_amount_at_index(debt.totals.entries@, i as int);
            }
            return Ok(
                DebtShares { denom: denom.clone(), shares: debt.totals.entries[i].amount },
            );
        }
    }
    Err(ContractError::NoDebt)
}

/// A page of the per-denom totals of issued debt shares.
pub fn query_all_total_debt_shares(
    debt: &DebtLedger,
    start_after: Option<String>,
    limit: Option<u32>,
) -> (r: Vec<DebtShares>)
    requires
        debt.wf(),
    ensures
        ({
            let s = debt.totals.entries@;
            let start = match start_after {
                Some(d) => denom_cursor(s, d@),
                None => 0int,
            };
            let cnt = if s.len() - start <= resolved_limit(limit) {
                s.len() - start
            } else {
                resolved_limit(limit)
            };
            &&& r@.len() == cnt
            &&& forall|k: int|
                0 <= k < cnt ==> (#[trigger] r@[k]).denom@ == s[start + k].denom@ && r@[k].shares
                    == s[start + k].amount
        }),
{
    let start: usize = denom_page_start(&debt.totals, &start_after);
    let lim = resolve_limit(limit) as usize;
    let n = debt.totals.entries.len();
    let stop = if n - start <= lim {
        n
    } else {
        start + lim
    };
    let mut r: Vec<DebtShares> = Vec::new();
    for i in start..stop
        invariant
            debt.wf(),
            n == debt.totals.entries@.len(),
            start <= i <= stop <= n,
            r@.len() == i - start,
            forall|k: int|
                0 <= k < i - start ==> (#[trigger] r@[k]).denom@ == debt.totals.entries@[start
                    + k].denom@ && r@[k].shares == debt.totals.entries@[start + k].amount,
    {
        r.push(
            DebtShares {
                denom: debt.totals.entries[i].denom.clone(),
                shares: debt.totals.entries[i].amount,
            },
        );
    }
    r
}

/// Where a page of a denom-keyed ledger starts.
pub open spec fn denom_cursor(s: Seq<DenomEntry>, d: Seq<char>) -> int
    decreases s.len(),
{
    if s.len() == 0 {
        0
    } else if s.last().denom@ == d {
        s.len() as int
    } else {
        denom_cursor(s.drop_last(), d)
    }
}

proof fn lemma_denom_cursor_found(s: Seq<DenomEntry>, i: int)
    requires
        crate::ledger::denom_keys_distinct(s),
        0 <= i < s.len(),
    ensures
        denom_cursor(s, s[i].denom@) == i + 1,
    decreases s.len(),
{
    if i < s.len() - 1 {
        lemma_denom_cursor_found(s.drop_last(), i);
    }
}

proof fn lemma_denom_cursor_absent(s: Seq<DenomEntry>, d: Seq<char>)
    requires
        forall|i: int| 0 <= i < s.len() ==> s[i].denom@ != d,
    ensures
        denom_cursor(s, d) == 0,
    decreases s.len(),
{
    if s.len() > 0 {
        lemma_denom_cursor_absent(s.drop_last(), d);
    }
}

/// A page of the coin whitelist.
pub fn query_allowed_coins(config: &Config, start_after: Option<String>, limit: Option<u32>) -> (r:
    Vec<String>)
    requires
        config.wf(),
    ensures
        ({
            let s = config.allowed_coins@;
            let start = match start_after {
                Some(d) => string_cursor(s, d@),
                None => 0int,
            };
            let cnt = if s.len() - start <= resolved_limit(limit) {
                s.len() - start
            } else {
                resolved_limit(limit)
            };
            &&& r@.len() == cnt
            &&& forall|k: int| 0 <= k < cnt ==> (#[trigger] r@[k])@ == s[start + k]@
        }),
{
    let start: usize = string_page_start(&config.allowed_coins, &start_after);
    let lim = resolve_limit(limit) as usize;
    let n = config.allowed_coins.len();
    let stop = if n - start <= lim {
        n
    } else {
        start + lim
    };
    let mut r: Vec<String> = Vec::new();
    for i in start..stop
        invariant
            config.wf(),
            n == config.allowed_coins@.len(),
            start <= i <= stop <= n,
            r@.len() == i - start,
            forall|k: int| 0 <= k < i - start ==> (#[trigger] r@[k])@ == config.allowed_coins@[start + k]@,
    {
        r.push(config.allowed_coins[i].clone());
    }
    r
}

/// Where a page of a denom list starts.
pub open spec fn string_cursor(s: Seq<String>, d: Seq<char>) -> int
    decreases s.len(),
{
    if s.len() == 0 {
        0
    } else if s.last()@ == d {
        s.len() as int
    } else {
        string_cursor(s.drop_last(), d)
    }
}

proof fn lemma_string_cursor_found(s: Seq<String>, i: int)
    requires
        crate::config::denoms_distinct(s),
        0 <= i < s.len(),
    ensures
        string_cursor(s, s[i]@) == i + 1,
    decreases s.len(),
{
    if i < s.len() - 1 {
        lemma_string_cursor_found(s.drop_last(), i);
    }
}

proof fn lemma_string_cursor_absent(s: Seq<String>, d: Seq<char>)
    requires
        forall|i: int| 0 <= i < s.len() ==> s[i]@ != d,
    ensures
        string_cursor(s, d) == 0,
    decreases s.len(),
{
    if s.len() > 0 {
        lemma_string_cursor_absent(s.drop_last(), d);
    }
}

/// A page of the configured vaults.
pub fn query_vaults_info(config: &Config, start_after: Option<String>, limit: Option<u32>) -> (r:
    Vec<VaultInfoResponse>)
    requires
        config.wf(),
    ensures
        ({
            let s = config.vault_configs@;
            let start = match start_after {
                Some(v) => vault_config_cursor(s, v@),
                None => 0int,
            };
            let cnt = if s.len() - start <= resolved_limit(limit) {
                s.len() - start
            } else {
                resolved_limit(limit)
            };
            &&& r@.len() == cnt
            &&& forall|k: int|
                0 <= k < cnt ==> (#[trigger] r@[k]).vault@ == s[start + k].addr@
                    && r@[k].config.whitelisted == s[start + k].config.whitelisted
                    && r@[k].config.deposit_cap.denom@ == s[start + k].config.deposit_cap.denom@
                    && r@[k].config.deposit_cap.amount == s[start + k].config.deposit_cap.amount
        }),
{
    let start: usize = vault_config_page_start(&config.vault_configs, &start_after);
    let lim = resolve_limit(limit) as usize;
    let n = config.vault_configs.len();
    let stop = if n - start <= lim {
        n
    } else {
        start + lim
    };
    let mut r: Vec<VaultInfoResponse> = Vec::new();
    for i in start..stop
        invariant
            config.wf(),
            n == config.vault_configs@.len(),
            start <= i <= stop <= n,
            r@.len() == i - start,
            forall|k: int|
                0 <= k < i - start ==> (#[trigger] r@[k]).vault@ == config.vault_configs@[start
                    + k].addr@ && r@[k].config.whitelisted == config.vault_configs@[start
                    + k].config.whitelisted && r@[k].config.deposit_cap.denom@
                    == config.vault_configs@[start + k].config.deposit_cap.denom@
                    && r@[k].config.deposit_cap.amount == config.vault_configs@[start
                    + k].config.deposit_cap.amount,
    {
        r.push(
            VaultInfoResponse {
                vault: config.vault_configs[i].addr.clone(),
                config: VaultConfig {
                    whitelisted: config.vault_configs[i].config.whitelisted,
                    deposit_cap: config.vault_configs[i].config.deposit_cap.duplicate(),
                },
            },
        );
    }
    r
}

/// Where a page of the vault configurations starts.
pub open spec fn vault_config_cursor(s: Seq<VaultConfigEntry>, v: Seq<char>) -> int
    decreases s.len(),
{
    if s.len() == 0 {
        0
    } else if s.last().addr@ == v {
        s.len() as int
    } else {
        vault_config_cursor(s.drop_last(), v)
    }
}

proof fn lemma_vault_config_cursor_found(s: Seq<VaultConfigEntry>, i: int)
    requires
        crate::config::vault_addrs_distinct(s),
        0 <= i < s.len(),
    ensures
        vault_config_cursor(s, s[i].addr@) == i + 1,
    decreases s.len(),
{
    if i < s.len() - 1 {
        lemma_vault_config_cursor_found(s.drop_last(), i);
    }
}

proof fn lemma_vault_config_cursor_absent(s: Seq<VaultConfigEntry>, v: Seq<char>)
    requires
        forall|i: int| 0 <= i < s.len() ==> s[i].addr@ != v,
    ensures
        vault_config_cursor(s, v) == 0,
    decreases s.len(),
{
    if s.len() > 0 {
        lemma_vault_config_cursor_absent(s.drop_last(), v);
    }
}

/// A page of every account's vault positions, starting right after the
/// cursor row.
pub fn query_all_vault_positions(
    vaults: &VaultLedger,
    start_after: Option<(String, String)>,
    limit: Option<u32>,
) -> (r: Vec<VaultPositionResponseItem>)
    requires
        vaults.wf(),
    ensures
        ({
            let s = vaults.entries@;
            let start = match start_after {
                Some((a, v)) => vault_entry_cursor(s, a@, v@),
                None => 0int,
            };
            let cnt = if s.len() - start <= resolved_limit(limit) {
                s.len() - start
            } else {
                resolved_limit(limit)
            };
            &&& r@.len() == cnt
            &&& forall|k: int|
                0 <= k < cnt ==> (#[trigger] r@[k]).account_id@ == s[start + k].account_id@
                    && r@[k].position.vault@ == s[start + k].vault_addr@
                    && r@[k].position.amount.unlocked == s[start + k].amount.unlocked
                    && r@[k].position.amount.locked == s[start + k].amount.locked
                    && r@[k].position.amount.unlocking@ == s[start + k].amount.unlocking@
        }),
{
    let start: usize = vault_entry_page_start(vaults, &start_after);
    let lim = resolve_limit(limit) as usize;
    let n = vaults.entries.len();
    let stop = if n - start <= lim {
        n
    } else {
        start + lim
    };
    let mut r: Vec<VaultPositionResponseItem> = Vec::new();
    for i in start..stop
        invariant
            vaults.wf(),
            n == vaults.entries@.len(),
            start <= i <= stop <= n,
            r@.len() == i - start,
            forall|k: int|
                0 <= k < i - start ==> (#[trigger] r@[k]).account_id@ == vaults.entries@[start
                    + k].account_id@ && r@[k].position.vault@ == vaults.entries@[start
                    + k].vault_addr@ && r@[k].position.amount.unlocked == vaults.entries@[start
                    + k].amount.unlocked && r@[k].position.amount.locked == vaults.entries@[start
                    + k].amount.locked && r@[k].position.amount.unlocking@
                    == vaults.entries@[start + k].amount.unlocking@,
    {
        r.push(
            VaultPositionResponseItem {
                account_id: vaults.entries[i].account_id.clone(),
                position: VaultPosition {
                    vault: vaults.entries[i].vault_addr.clone(),
                    amount: vaults.entries[i].amount.duplicate(),
                },
            },
        );
    }
    r
}

/// Where a page of the vault-position ledger starts.
pub open spec fn vault_entry_cursor(s: Seq<VaultPositionEntry>, a: Seq<char>, v: Seq<char>) -> int
    decreases s.len(),
{
    if s.len() == 0 {
        0
    } else if crate::vault::vault_key_is(s.last(), a, v) {
        s.len() as int
    } else {
        vault_entry_cursor(s.drop_last(), a, v)
    }
}

proof fn lemma_vault_entry_cursor_found(s: Seq<VaultPositionEntry>, i: int)
    requires
        crate::vault::vault_keys_distinct(s),
        0 <= i < s.len(),
    ensures
        vault_entry_cursor(s, s[i].account_id@, s[i].vault_addr@) == i + 1,
    decreases s.len(),
{
    if i < s.len() - 1 {
        lemma_vault_entry_cursor_found(s.drop_last(), i);
    }
}

proof fn lemma_vault_entry_cursor_absent(s: Seq<VaultPositionEntry>, a: Seq<char>, v: Seq<char>)
    requires
        forall|i: int| 0 <= i < s.len() ==> !crate::vault::vault_key_is(s[i], a, v),
    ensures
        vault_entry_cursor(s, a, v) == 0,
    decreases s.len(),
{
    if s.len() > 0 {
        lemma_vault_entry_cursor_absent(s.drop_last(), a, v);
    }
}

fn denom_page_start(ledger: &crate::ledger::DenomLedger, start_after: &Option<String>) -> (r:
    usize)
    requires
        ledger.wf(),
    ensures
        r == (match start_after {
            Some(d) => denom_cursor(ledger.entries@, d@),
            None => 0int,
        }),
        r <= ledger.entries@.len(),
{
    match start_after {
        None => 0,
        Some(d) => {
            let n = ledger.entries.len();
            for i in 0..n
                invariant
                    ledger.wf(),
                    n == ledger.entries@.len(),
                    *start_after matches Some(x) && x@ == d@,
                    forall|j: int| 0 <= j < i ==> ledger.entries@[j].denom@ != d@,
            {
                if ledger.entries[i].denom == *d {
                    proof {
                        lemma_denom_cursor_found(ledger.entries@, i as int);
                    }
                    return i + 1;
                }
            }
            proof {
                lemma_denom_cursor_absent(ledger.entries@, d@);
            }
            0
        },
    }
}

fn string_page_start(items: &Vec<String>, start_after: &Option<String>) -> (r: usize)
    requires
        crate::config::denoms_distinct(items@),
    ensures
        r == (match start_after {
            Some(d) => string_cursor(items@, d@),
            None => 0int,
        }),
        r <= items@.len(),
{
    match start_after {
        None => 0,
        Some(d) => {
            let n = items.len();
            for i in 0..n
                invariant
                    crate::config::denoms_distinct(items@),
                    n == items@.len(),
                    *start_after matches Some(x) && x@ == d@,
                    forall|j: int| 0 <= j < i ==> items@[j]@ != d@,
            {
                if items[i] == *d {
                    proof {
                        lemma_string_cursor_found(items@, i as int);
                    }
                    return i + 1;
                }
            }
            proof {
                lemma_string_cursor_absent(items@, d@);
            }
            0
        },
    }
}

fn vault_config_page_start(items: &Vec<VaultConfigEntry>, start_after: &Option<String>) -> (r:
    usize)
    requires
        crate::config::vault_addrs_distinct(items@),
    ensures
        r == (match start_after {
            Some(v) => vault_config_cursor(items@, v@),
            None => 0int,
        }),
        r <= items@.len(),
{
    match start_after {
        None => 0,
        Some(v) => {
            let n = items.len();
            for i in 0..n
                invariant
                    crate::config::vault_addrs_distinct(items@),
                    n == items@.len(),
                    *start_after matches Some(x) && x@ == v@,
                    forall|j: int| 0 <= j < i ==> items@[j].addr@ != v@,
            {
                if items[i].addr == *v {
                    proof {
                        lemma_vault_config_cursor_found(items@, i as int);
                    }
                    return i + 1;
                }
            }
            proof {
                lemma_vault_config_cursor_absent(items@, v@);
            }
            0
        },
    }
}

fn vault_entry_page_start(vaults: &VaultLedger, start_after: &Option<(String, String)>) -> (r:
    usize)
    requires
        vaults.wf(),
    ensures
        r == (match start_after {
            Some((a, v)) => vault_entry_cursor(vaults.entries@, a@, v@),
            None => 0int,
        }),
        r <= vaults.entries@.len(),
{
    match start_after {
        None => 0,
        Some((a, v)) => {
            let n = vaults.entries.len();
            for i in 0..n
                invariant
                    vaults.wf(),
                    n == vaults.entries@.len(),
                    *start_after matches Some(p) && p.0@ == a@ && p.1@ == v@,
                    forall|j: int|
                        0 <= j < i ==> !crate::vault::vault_key_is(vaults.entries@[j], a@, v@),
            {
                if vaults.entries[i].account_id == *a && vaults.entries[i].vault_addr == *v {
                    proof {
                        lemma_vault_entry_cursor_found(vaults.entries@, i as int);
                    }
                    return i + 1;
                }
            }
            proof {
                lemma_vault_entry_cursor_absent(vaults.entries@, a@, v@);
            }
            0
        },
    }
}

} // verus!
