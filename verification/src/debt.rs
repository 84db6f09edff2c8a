use vstd::prelude::*;
use vstd::arithmetic::div_mod::{
    lemma_div_pos_is_pos, lemma_fundamental_div_mod, lemma_mod_division_less_than_divisor,
    lemma_multiply_divide_le,
};
use vstd::arithmetic::mul::{lemma_mul_inequality, lemma_mul_left_inequality};
use crate::config::Config;
use crate::ledger::{lemma_amount_le_sum, DenomLedger, PairLedger};
use crate::math::{checked_add, mul_ratio_floor, mul_ratio_spec, ratio_floor};
use crate::types::{Coin, ContractError, Instruction};

verus! {

/// The debt-share ledger: per-account debt shares against a per-denom pool of
/// total issued shares. Shares convert to amounts through the lending pool's
/// reported total outstanding debt.
#[derive(Debug)]
pub struct DebtLedger {
    /// Per (account, denom) shares; a row exists exactly when it is non-zero.
    pub shares: PairLedger,
    /// Per-denom total issued shares; a row may stay at zero.
    pub totals: DenomLedger,
}

impl DebtLedger {
    /// Both ledgers are well formed, and for every denom the shares handed
    /// out never exceed the total issued: burning rounds down, so full
    /// repayments may retire fewer total shares than the account surrenders.
    pub open spec fn wf(self) -> bool {
        &&& self.shares.wf()
        &&& self.totals.wf()
        &&& forall|d: Seq<char>|
            #![trigger self.shares.sum_of(d)]
            self.shares.sum_of(d) <= self.totals.amount_of(d)
    }

    pub open spec fn shares_of(self, a: Seq<char>, d: Seq<char>) -> u128 {
        self.shares.amount_of(a, d)
    }

    pub open spec fn total_of(self, d: Seq<char>) -> u128 {
        self.totals.amount_of(d)
    }

    /// The amount an account owes for a denom, given the pool's total
    /// outstanding debt for it: its share of the pool, rounded down.
    pub open spec fn owed_of(self, a: Seq<char>, d: Seq<char>, total_debt_amount: u128) -> int {
        ratio_floor(total_debt_amount, self.shares_of(a, d), self.total_of(d))
    }

    pub fn new() -> (r: DebtLedger)
        ensures
            r.wf(),
            forall|a: Seq<char>, d: Seq<char>| r.shares_of(a, d) == 0,
            forall|d: Seq<char>| r.total_of(d) == 0,
    {
        let r = DebtLedger { shares: PairLedger::new(), totals: DenomLedger::new() };
        proof {
            assert forall|d: Seq<char>| #![trigger r.shares.sum_of(d)] r.shares.sum_of(d)
                <= r.totals.amount_of(d) by {}
        }
        r
    }

    /// An account's shares for a denom never exceed the denom's total issued
    /// shares; this holds in every well-formed ledger, hence after every
    /// sequence of borrows and repayments.
    pub proof fn lemma_account_shares_le_total(self, a: Seq<char>, d: Seq<char>)
        requires
            self.wf(),
        ensures
            self.shares_of(a, d) <= self.total_of(d),
    {
        lemma_amount_le_sum(self.shares.entries@, a, d);
        assert(self.shares_of(a, d) <= self.shares.sum_of(d));
        assert(self.shares.sum_of(d) <= self.totals.amount_of(d));
    }

    /// A debt row exists for (account, denom) exactly when its shares are
    /// non-zero.
    pub proof fn lemma_debt_row_iff_nonzero(self, a: Seq<char>, d: Seq<char>)
        requires
            self.wf(),
        ensures
            self.shares.contains_key(a, d) <==> self.shares_of(a, d) > 0,
    {
        self.shares.lemma_contains_iff_nonzero(a, d);
    }
}

/// `ratio_floor(v, s, t) <= v` when `s <= t`: a share of a pool never exceeds
/// the pool.
pub proof fn lemma_ratio_le_value(v: u128, s: u128, t: u128)
    requires
        s <= t,
        t > 0,
    ensures
        0 <= ratio_floor(v, s, t) <= v,
{
    lemma_mul_inequality(s as int, t as int, v as int);
    lemma_multiply_divide_le((v * s) as int, t as int, v as int);
    lemma_div_pos_is_pos((v * s) as int, t as int);
}

/// Burning back at the same rate never exceeds the shares the amount came
/// from: if `a <= floor(d * s / t)` then `floor(t * a / d) <= s`.
pub proof fn lemma_shares_round_trip(t: u128, d: u128, s: u128, a: u128)
    requires
        t > 0,
        d > 0,
        a <= ratio_floor(d, s, t),
    ensures
        0 <= ratio_floor(t, a, d) <= s,
{
    let q = (d * s) / (t as int);
    lemma_fundamental_div_mod((d * s) as int, t as int);
    lemma_mod_division_less_than_divisor((d * s) as int, t as int);
    assert(t * q <= d * s);
    lemma_mul_left_inequality(t as int, a as int, q);
    assert(t * a <= d * s);
    lemma_multiply_divide_le((t * a) as int, d as int, s as int);
    lemma_div_pos_is_pos((t * a) as int, d as int);
}

/// The shares minted for a borrow of `amount`: one to one while no shares are
/// issued, else in proportion to the pool's outstanding debt, rounded down.
pub open spec fn mint_result(total: u128, amount: u128, total_debt_amount: u128) -> Result<
    u128,
    ContractError,
> {
    if total == 0 {
        Ok(amount)
    } else {
        mul_ratio_spec(total, amount, total_debt_amount)
    }
}

/// Everything `borrow` guarantees, relating the ledgers before and after
/// the call to its result.
pub open spec fn borrow_post(
    config: Config,
    pre_debt: DebtLedger,
    post_debt: DebtLedger,
    pre_bal: PairLedger,
    post_bal: PairLedger,
    account_id: String,
    coin: Coin,
    total_debt_amount: u128,
    r: Result<Vec<Instruction>, ContractError>,
) -> bool {
    &&& post_debt.wf()
    &&& post_bal.wf()
    &&& (r is Err ==> post_debt == pre_debt && post_bal == pre_bal)
    &&& (coin.amount == 0 ==> r == Err::<Vec<Instruction>, ContractError>(ContractError::NoAmount))
    &&& (coin.amount > 0 && !config.coin_allowed(coin.denom@) ==> (r matches Err(e) && e matches
        ContractError::NotWhitelisted(s) && s@ == coin.denom@))
    &&& (coin.amount > 0 && config.coin_allowed(coin.denom@) ==> match mint_result(
        pre_debt.total_of(coin.denom@),
        coin.amount,
        total_debt_amount,
    ) {
        Err(e) => r == Err::<Vec<Instruction>, ContractError>(e),
        Ok(mint) => {
            if pre_debt.total_of(coin.denom@) + mint > u128::MAX || pre_bal.amount_of(
                account_id@,
                coin.denom@,
            ) + coin.amount > u128::MAX {
                r == Err::<Vec<Instruction>, ContractError>(ContractError::Overflow)
            } else {
                &&& r is Ok
                &&& post_debt.shares_of(account_id@, coin.denom@) == pre_debt.shares_of(
                    account_id@,
                    coin.denom@,
                ) + mint
                &&& post_debt.total_of(coin.denom@) == pre_debt.total_of(coin.denom@) + mint
                &&& forall|a: Seq<char>, d: Seq<char>|
                    !(a == account_id@ && d == coin.denom@) ==> post_debt.shares_of(a, d)
                        == pre_debt.shares_of(a, d)
                &&& forall|d: Seq<char>|
                    d != coin.denom@ ==> post_debt.total_of(d) == pre_debt.total_of(d)
                &&& post_bal.amount_of(account_id@, coin.denom@) == pre_bal.amount_of(
                    account_id@,
                    coin.denom@,
                ) + coin.amount
                &&& forall|a: Seq<char>, d: Seq<char>|
                    !(a == account_id@ && d == coin.denom@) ==> post_bal.amount_of(a, d)
                        == pre_bal.amount_of(a, d)
                &&& r matches Ok(instrs) && instrs@.len() == 1 && (instrs@[0] matches
                    Instruction::PoolBorrow { coin: c } && c.denom@ == coin.denom@ && c.amount
                    == coin.amount)
            }
        },
    })
}

/// Mints debt shares for a borrow, credits the borrowed coins to the account
/// and instructs the lending pool to pay them out.
pub fn borrow(
    config: &Config,
    debt: &mut DebtLedger,
    balances: &mut PairLedger,
    account_id: &String,
    coin: &Coin,
    total_debt_amount: u128,
) -> (r: Result<Vec<Instruction>, ContractError>)
    requires
        old(debt).wf(),
        old(balances).wf(),
    ensures
        borrow_post(
            *config,
            *old(debt),
            *final(debt),
            *old(balances),
            *final(balances),
            *account_id,
            *coin,
            total_debt_amount,
            r,
        ),
{
    if coin.amount == 0 {
        return Err(ContractError::NoAmount);
    }
    match config.assert_coin_is_whitelisted(&coin.denom) {
        Ok(()) => (),
        Err(e) => {
            return Err(e);
        },
    }
    let total = debt.totals.get_amount(&coin.denom);
    let mint = if total == 0 {
        coin.amount
    } else {
        match mul_ratio_floor(total, coin.amount, total_debt_amount) {
            Ok(m) => m,
            Err(e) => {
                return Err(e);
            },
        }
    };
    let new_total = match checked_add(total, mint) {
        Ok(v) => v,
        Err(e) => {
            return Err(e);
        },
    };
    let bal = balances.get_amount(account_id, &coin.denom);
    let new_bal = match checked_add(bal, coin.amount) {
        Ok(v) => v,
        Err(e) => {
            return Err(e);
        },
    };
    let cur_shares = debt.shares.get_amount(account_id, &coin.denom);
    proof {
        lemma_amount_le_sum(debt.shares.entries@, account_id@, coin.denom@);
        assert(cur_shares <= debt.shares.sum_of(coin.denom@));
        assert(debt.shares.sum_of(coin.denom@) <= debt.totals.amount_of(coin.denom@));
    }
    let new_shares = cur_shares + mint;
    debt.shares.set_amount(account_id, &coin.denom, new_shares);
    debt.totals.set_amount(&coin.denom, new_total);
    balances.set_amount(account_id, &coin.denom, new_bal);
    let mut instrs: Vec<Instruction> = Vec::new();
    instrs.push(Instruction::PoolBorrow { coin: Coin::new(&coin.denom, coin.amount) });
    proof {
        assert forall|d: Seq<char>| #![trigger debt.shares.sum_of(d)] debt.shares.sum_of(d)
            <= debt.totals.amount_of(d) by {}
    }
    Ok(instrs)
}

/// The account's current debt for a denom: the owed amount and the share
/// count it stems from. An account without a debt row has no debt.
pub fn current_debt_for_denom(
    debt: &DebtLedger,
    account_id: &String,
    denom: &String,
    total_debt_amount: u128,
) -> (r: Result<(u128, u128), ContractError>)
    requires
        debt.wf(),
    ensures
        r is Ok <==> debt.shares_of(account_id@, denom@) > 0,
        r is Err ==> r == Err::<(u128, u128), ContractError>(ContractError::NoDebt),
        r matches Ok(p) ==> p.1 == debt.shares_of(account_id@, denom@) && p.0 == debt.owed_of(
            account_id@,
            denom@,
            total_debt_amount,
        ),
{
    let shares = debt.shares.get_amount(account_id, denom);
    if shares == 0 {
        return Err(ContractError::NoDebt);
    }
    let total = debt.totals.get_amount(denom);
    proof {
        debt.lemma_account_shares_le_total(account_id@, denom@);
        lemma_ratio_le_value(total_debt_amount, shares, total);
    }
    let owed = match mul_ratio_floor(total_debt_amount, shares, total) {
        Ok(v) => v,
        Err(e) => {
            proof {
                assert(false);
            }
            return Err(e);
        },
    };
    Ok((owed, shares))
}

/// Everything `repay` guarantees, relating the ledgers before and after the
/// call to its result.
pub open spec fn repay_post(
    config: Config,
    pre_debt: DebtLedger,
    post_debt: DebtLedger,
    pre_bal: PairLedger,
    post_bal: PairLedger,
    account_id: String,
    coin: Coin,
    total_debt_amount: u128,
    r: Result<Vec<Instruction>, ContractError>,
) -> bool {
    &&& post_debt.wf()
    &&& post_bal.wf()
    &&& (r is Err ==> post_debt == pre_debt && post_bal == pre_bal)
    &&& (coin.amount == 0 ==> r == Err::<Vec<Instruction>, ContractError>(ContractError::NoAmount))
    &&& (coin.amount > 0 && !config.coin_allowed(coin.denom@) ==> (r matches Err(e) && e matches
        ContractError::NotWhitelisted(s) && s@ == coin.denom@))
    &&& (coin.amount > 0 && config.coin_allowed(coin.denom@) && pre_debt.shares_of(
        account_id@,
        coin.denom@,
    ) == 0 ==> r == Err::<Vec<Instruction>, ContractError>(ContractError::NoDebt))
    &&& (coin.amount > 0 && config.coin_allowed(coin.denom@) && pre_debt.shares_of(
        account_id@,
        coin.denom@,
    ) > 0 ==> {
            let owed = pre_debt.owed_of(account_id@, coin.denom@, total_debt_amount);
            let applied = if owed <= coin.amount {
                owed
            } else {
                coin.amount as int
            };
            let burned = ratio_floor(
                pre_debt.total_of(coin.denom@),
                applied as u128,
                total_debt_amount,
            );
            if total_debt_amount == 0 {
                r == Err::<Vec<Instruction>, ContractError>(ContractError::DivideByZero)
            } else if pre_bal.amount_of(account_id@, coin.denom@) < applied {
                r == Err::<Vec<Instruction>, ContractError>(ContractError::Underflow)
            } else {
                &&& r is Ok
                &&& applied <= owed
                &&& post_debt.shares_of(account_id@, coin.denom@) == (if applied == owed {
                    0
                } else {
                    pre_debt.shares_of(account_id@, coin.denom@) - burned
                })
                &&& post_debt.total_of(coin.denom@) == pre_debt.total_of(coin.denom@) - burned
                &&& forall|a: Seq<char>, d: Seq<char>|
                    !(a == account_id@ && d == coin.denom@) ==> post_debt.shares_of(a, d)
                        == pre_debt.shares_of(a, d)
                &&& forall|d: Seq<char>|
                    d != coin.denom@ ==> post_debt.total_of(d) == pre_debt.total_of(d)
                &&& post_bal.amount_of(account_id@, coin.denom@) == pre_bal.amount_of(
                    account_id@,
                    coin.denom@,
                ) - applied
                &&& forall|a: Seq<char>, d: Seq<char>|
                    !(a == account_id@ && d == coin.denom@) ==> post_bal.amount_of(a, d)
                        == pre_bal.amount_of(a, d)
                &&& r matches Ok(instrs) && instrs@.len() == 1 && (instrs@[0] matches
                    Instruction::PoolRepay { coin: c } && c.denom@ == coin.denom@ && c.amount
                    == applied)
            }
        })
}

/// Burns debt shares for a repayment. The applied amount is capped at the
/// debt currently owed; repaying the full debt deletes the debt row. The
/// account's balance drops by the applied amount alone, and the lending pool
/// is instructed to take it.
pub fn repay(
    config: &Config,
    debt: &mut DebtLedger,
    balances: &mut PairLedger,
    account_id: &String,
    coin: &Coin,
    total_debt_amount: u128,
) -> (r: Result<Vec<Instruction>, ContractError>)
    requires
        old(debt).wf(),
        old(balances).wf(),
    ensures
        repay_post(
            *config,
            *old(debt),
            *final(debt),
            *old(balances),
            *final(balances),
            *account_id,
            *coin,
            total_debt_amount,
            r,
        ),
{
    if coin.amount == 0 {
        return Err(ContractError::NoAmount);
    }
    match config.assert_coin_is_whitelisted(&coin.denom) {
        Ok(()) => (),
        Err(e) => {
            return Err(e);
        },
    }
    let (debt_amount, debt_shares) = match current_debt_for_denom(
        debt,
        account_id,
        &coin.denom,
        total_debt_amount,
    ) {
        Ok(p) => p,
        Err(e) => {
            return Err(e);
        },
    };
    let amount_to_repay = if debt_amount <= coin.amount {
        debt_amount
    } else {
        coin.amount
    };
    let total = debt.totals.get_amount(&coin.denom);
    proof {
        debt.lemma_account_shares_le_total(account_id@, coin.denom@);
        if total_debt_amount > 0 {
            lemma_shares_round_trip(total, total_debt_amount, debt_shares, amount_to_repay);
        }
    }
    let shares_to_repay = match mul_ratio_floor(total, amount_to_repay, total_debt_amount) {
        Ok(v) => v,
        Err(e) => {
            return Err(e);
        },
    };
    let bal = balances.get_amount(account_id, &coin.denom);
    if bal < amount_to_repay {
        return Err(ContractError::Underflow);
    }
    proof {
        lemma_amount_le_sum(debt.shares.entries@, account_id@, coin.denom@);
    }
    let new_shares = if amount_to_repay == debt_amount {
        0
    } else {
        debt_shares - shares_to_repay
    };
    debt.shares.set_amount(account_id, &coin.denom, new_shares);
    debt.totals.set_amount(&coin.denom, total - shares_to_repay);
    balances.set_amount(account_id, &coin.denom, bal - amount_to_repay);
    let mut instrs: Vec<Instruction> = Vec::new();
    instrs.push(Instruction::PoolRepay { coin: Coin::new(&coin.denom, amount_to_repay) });
    proof {
        assert forall|d: Seq<char>| #![trigger debt.shares.sum_of(d)] debt.shares.sum_of(d)
            <= debt.totals.amount_of(d) by {}
    }
    Ok(instrs)
}

} // verus!
