use vstd::prelude::*;
use crate::vault::{
    lemma_position_remove, lemma_position_update, position_in, sum_lots, vault_key_is,
    UnlockingLot, UpdateType, VaultLedger, VaultPositionAmount, VaultPositionUpdate,
};
use crate::config::Config;
use crate::debt::{current_debt_for_denom, lemma_ratio_le_value, DebtLedger};
use crate::ledger::PairLedger;
use crate::math::{mul_ratio_floor, ratio_floor, DECIMAL_ONE};
use crate::types::{Coin, ContractError, Health, Instruction, Step};

verus! {

/// The lots a liquidation consumes, oldest first, each with the amount taken
/// from it: whole lots until the remainder is covered, then at most one
/// partial take.
pub open spec fn lots_taken(lots: Seq<UnlockingLot>, remaining: int) -> Seq<UnlockingLot>
    decreases lots.len(),
{
    if remaining <= 0 || lots.len() == 0 {
        Seq::empty()
    } else if lots[0].amount <= remaining {
        seq![lots[0]] + lots_taken(lots.drop_first(), remaining - lots[0].amount)
    } else {
        seq![UnlockingLot { id: lots[0].id, amount: remaining as u128 }]
    }
}

/// The lots that survive the liquidation: the untouched suffix, preceded by
/// the partially drained lot when one exists.
pub open spec fn lots_after(lots: Seq<UnlockingLot>, remaining: int) -> Seq<UnlockingLot>
    decreases lots.len(),
{
    if remaining <= 0 || lots.len() == 0 {
        lots
    } else if lots[0].amount <= remaining {
        lots_after(lots.drop_first(), remaining - lots[0].amount)
    } else {
        seq![UnlockingLot { id: lots[0].id, amount: (lots[0].amount - remaining) as u128 }]
            + lots.drop_first()
    }
}

/// What the lots cannot cover: the part of the liquidation that must come
/// out of the Locked bucket.
pub open spec fn lots_shortfall(lots: Seq<UnlockingLot>, remaining: int) -> int
    decreases lots.len(),
{
    if remaining <= 0 || lots.len() == 0 {
        remaining
    } else if lots[0].amount <= remaining {
        lots_shortfall(lots.drop_first(), remaining - lots[0].amount)
    } else {
        0
    }
}

/// The shortfall is what exceeds the lots' sum, and a positive shortfall
/// means every lot was consumed whole.
pub proof fn lemma_shortfall(lots: Seq<UnlockingLot>, remaining: int)
    requires
        remaining >= 0,
        forall|i: int| 0 <= i < lots.len() ==> lots[i].amount > 0,
    ensures
        lots_shortfall(lots, remaining) == if remaining >= sum_lots(lots) {
            remaining - sum_lots(lots)
        } else {
            0
        },
        remaining >= sum_lots(lots) ==> lots_after(lots, remaining) =~= Seq::<
            UnlockingLot,
        >::empty() && lots_taken(lots, remaining) =~= lots,
    decreases lots.len(),
{
    lemma_sum_lots_first(lots);
    if lots.len() > 0 {
        crate::vault::lemma_sum_lots_nonneg(lots.drop_first());
        assert(forall|i: int|
            0 <= i < lots.drop_first().len() ==> #[trigger] lots.drop_first()[i].amount > 0);
    }
    if remaining <= 0 || lots.len() == 0 {
        if lots.len() > 0 {
            lemma_sum_lots_pos(lots);
        }
    } else if lots[0].amount <= remaining {
        lemma_shortfall(lots.drop_first(), remaining - lots[0].amount);
        if remaining >= sum_lots(lots) {
            assert(lots_taken(lots, remaining) == seq![lots[0]] + lots_taken(
                lots.drop_first(),
                remaining - lots[0].amount,
            ));
            assert(lots_taken(lots.drop_first(), remaining - lots[0].amount) =~= lots.drop_first());
            assert(seq![lots[0]] + lots.drop_first() =~= lots);
            assert(lots_taken(lots, remaining) =~= lots);
        }
    }
}

/// Splitting a lot list at its first element: the sum is the first amount
/// plus the rest.
pub proof fn lemma_sum_lots_first(lots: Seq<UnlockingLot>)
    ensures
        lots.len() > 0 ==> sum_lots(lots) == lots[0].amount + sum_lots(lots.drop_first()),
    decreases lots.len(),
{
    if lots.len() == 1 {
        assert(lots.drop_first() =~= Seq::<UnlockingLot>::empty());
        assert(lots.drop_last() =~= Seq::<UnlockingLot>::empty());
        assert(sum_lots(Seq::<UnlockingLot>::empty()) == 0);
        assert(sum_lots(lots) == sum_lots(lots.drop_last()) + lots.last().amount);
    } else if lots.len() > 1 {
        lemma_sum_lots_first(lots.drop_last());
        assert(lots.drop_first().drop_last() =~= lots.drop_last().drop_first());
        assert(lots.drop_last()[0] == lots[0]);
        assert(lots.drop_first().last() == lots.last());
        assert(sum_lots(lots.drop_first()) == sum_lots(lots.drop_first().drop_last())
            + lots.drop_first().last().amount);
        assert(sum_lots(lots) == sum_lots(lots.drop_last()) + lots.last().amount);
    }
}

/// A list of positive lots has a positive sum.
pub proof fn lemma_sum_lots_pos(lots: Seq<UnlockingLot>)
    requires
        lots.len() > 0,
        forall|i: int| 0 <= i < lots.len() ==> lots[i].amount > 0,
    ensures
        sum_lots(lots) > 0,
{
    crate::vault::lemma_sum_lots_nonneg(lots.drop_last());
}


/// What one liquidation event computes, before any state moves: the debt
/// amount actually repaid (capped by the request, the close-factor ceiling
/// and the debt owed) and the collateral amount seized (the repaid value
/// marked up by the liquidation discount, capped by what the liquidatee
/// holds), or the error that rejects the event.
pub open spec fn liquidation_outcome(
    debt: DebtLedger,
    max_close_factor: u128,
    liquidatee: Seq<char>,
    debt_denom: Seq<char>,
    requested: u128,
    available: u128,
    liquidatable: bool,
    total_debt_amount: u128,
    debt_price: u128,
    request_price: u128,
    liquidation_discount: u128,
) -> Result<(u128, u128), ContractError> {
    if !liquidatable {
        Err(ContractError::NotLiquidatable)
    } else if debt.shares_of(liquidatee, debt_denom) == 0 {
        Err(ContractError::NoDebt)
    } else {
        let owed = debt.owed_of(liquidatee, debt_denom, total_debt_amount);
        let cap = ratio_floor(owed as u128, max_close_factor, DECIMAL_ONE);
        let repay = if requested <= cap {
            requested as int
        } else {
            cap
        };
        let dval = ratio_floor(repay as u128, debt_price, DECIMAL_ONE);
        if liquidation_discount > DECIMAL_ONE {
            Err(ContractError::Underflow)
        } else {
            let eff = ratio_floor(
                request_price,
                (DECIMAL_ONE - liquidation_discount) as u128,
                DECIMAL_ONE,
            );
            if dval > u128::MAX {
                Err(ContractError::Overflow)
            } else if eff == 0 {
                Err(ContractError::DivideByZero)
            } else {
                let sraw = ratio_floor(dval as u128, DECIMAL_ONE, eff as u128);
                if sraw > u128::MAX {
                    Err(ContractError::Overflow)
                } else {
                    let seize = if sraw <= available {
                        sraw
                    } else {
                        available as int
                    };
                    Ok(((repay as u128), (seize as u128)))
                }
            }
        }
    }
}

/// Computes one liquidation event against a liquidatable account: the debt
/// coin actually repaid and the request coin seized. Asking for more than
/// the close-factor ceiling or the owed debt is capped silently.
pub fn calculate_liquidation(
    debt: &DebtLedger,
    config: &Config,
    liquidatee_account_id: &String,
    debt_coin: &Coin,
    request_coin_denom: &String,
    available: u128,
    health: &Health,
    total_debt_amount: u128,
    debt_price: u128,
    request_price: u128,
    liquidation_discount: u128,
) -> (r: Result<(Coin, Coin), ContractError>)
    requires
        debt.wf(),
        config.wf(),
    ensures
        match liquidation_outcome(
            *debt,
            config.max_close_factor,
            liquidatee_account_id@,
            debt_coin.denom@,
            debt_coin.amount,
            available,
            health.liquidatable,
            total_debt_amount,
            debt_price,
            request_price,
            liquidation_discount,
        ) {
            Err(e) => r == Err::<(Coin, Coin), ContractError>(e),
            Ok((x, y)) => {
                &&& r matches Ok(p)
                &&& (r matches Ok(p) ==> p.0.denom@ == debt_coin.denom@ && p.0.amount == x
                    && p.1.denom@ == request_coin_denom@ && p.1.amount == y)
                &&& x <= debt.owed_of(liquidatee_account_id@, debt_coin.denom@, total_debt_amount)
                &&& y <= available
            },
        },
{
    if !health.liquidatable {
        return Err(ContractError::NotLiquidatable);
    }
    let (owed, _shares) = match current_debt_for_denom(
        debt,
        liquidatee_account_id,
        &debt_coin.denom,
        total_debt_amount,
    ) {
        Ok(p) => p,
        Err(e) => {
            return Err(e);
        },
    };
    proof {
        lemma_ratio_le_value(owed, config.max_close_factor, DECIMAL_ONE);
    }
    let cap = match mul_ratio_floor(owed, config.max_close_factor, DECIMAL_ONE) {
        Ok(v) => v,
        Err(e) => {
            proof {
                assert(false);
            }
            return Err(e);
        },
    };
    let repay = if debt_coin.amount <= cap {
        debt_coin.amount
    } else {
        cap
    };
    if liquidation_discount > DECIMAL_ONE {
        return Err(ContractError::Underflow);
    }
    let one_minus = DECIMAL_ONE - liquidation_discount;
    let dval = match mul_ratio_floor(repay, debt_price, DECIMAL_ONE) {
        Ok(v) => v,
        Err(e) => {
            return Err(e);
        },
    };
    proof {
        lemma_ratio_le_value(request_price, one_minus, DECIMAL_ONE);
    }
    let eff = match mul_ratio_floor(request_price, one_minus, DECIMAL_ONE) {
        Ok(v) => v,
        Err(e) => {
            proof {
                assert(false);
            }
            return Err(e);
        },
    };
    if eff == 0 {
        return Err(ContractError::DivideByZero);
    }
    let sraw = match mul_ratio_floor(dval, DECIMAL_ONE, eff) {
        Ok(v) => v,
        Err(e) => {
            return Err(e);
        },
    };
    let seize = if sraw <= available {
        sraw
    } else {
        available
    };
    Ok((Coin::new(&debt_coin.denom, repay), Coin::new(request_coin_denom, seize)))
}

/// Seizes spot collateral from a liquidatable account: the liquidator's debt
/// coins move to the liquidatee (to be consumed by the chained repay step)
/// and the discounted equivalent of the liquidatee's collateral moves to the
/// liquidator.
/// Everything `liquidate_coin` guarantees, relating the balance ledger
/// before and after the call to its result.
pub open spec fn liquidate_coin_post(
    config: Config,
    debt: DebtLedger,
    pre_bal: PairLedger,
    post_bal: PairLedger,
    liquidator_account_id: String,
    liquidatee_account_id: String,
    debt_coin: Coin,
    request_coin_denom: String,
    health: Health,
    total_debt_amount: u128,
    debt_price: u128,
    request_price: u128,
    liquidation_discount: u128,
    r: Result<Vec<Instruction>, ContractError>,
) -> bool {
    &&& post_bal.wf()
    &&& (r is Err ==> post_bal.entries@ == pre_bal.entries@)
    &&& (liquidator_account_id@ == liquidatee_account_id@ ==> r == Err::<
        Vec<Instruction>,
        ContractError,
    >(ContractError::SelfLiquidation))
    &&& (liquidator_account_id@ != liquidatee_account_id@ ==> ({
        let outcome = liquidation_outcome(
            debt,
            config.max_close_factor,
            liquidatee_account_id@,
            debt_coin.denom@,
            debt_coin.amount,
            pre_bal.amount_of(liquidatee_account_id@, request_coin_denom@),
            health.liquidatable,
            total_debt_amount,
            debt_price,
            request_price,
            liquidation_discount,
        );
        match outcome {
            Err(e) => r == Err::<Vec<Instruction>, ContractError>(e),
            Ok((x, y)) => {
                let o1 = pre_bal.amount_of(liquidator_account_id@, debt_coin.denom@);
                let o2 = pre_bal.amount_of(liquidatee_account_id@, debt_coin.denom@);
                let o4 = pre_bal.amount_of(liquidator_account_id@, request_coin_denom@);
                let same = debt_coin.denom@ == request_coin_denom@;
                if o1 < x {
                    r == Err::<Vec<Instruction>, ContractError>(ContractError::Underflow)
                } else if o2 + x > u128::MAX {
                    r == Err::<Vec<Instruction>, ContractError>(ContractError::Overflow)
                } else if !same && o4 + y > u128::MAX {
                    r == Err::<Vec<Instruction>, ContractError>(ContractError::Overflow)
                } else if same && o1 - x + y > u128::MAX {
                    r == Err::<Vec<Instruction>, ContractError>(ContractError::Overflow)
                } else {
                    &&& r is Ok
                    &&& same ==> post_bal.amount_of(liquidator_account_id@, debt_coin.denom@) == o1
                        - x + y && post_bal.amount_of(liquidatee_account_id@, debt_coin.denom@)
                        == o2 + x - y
                    &&& !same ==> post_bal.amount_of(liquidator_account_id@, debt_coin.denom@)
                        == o1 - x && post_bal.amount_of(liquidatee_account_id@, debt_coin.denom@)
                        == o2 + x && post_bal.amount_of(liquidatee_account_id@, request_coin_denom@)
                        == pre_bal.amount_of(liquidatee_account_id@, request_coin_denom@) - y
                        && post_bal.amount_of(liquidator_account_id@, request_coin_denom@) == o4
                        + y
                    &&& forall|a2: Seq<char>, d2: Seq<char>|
                        !((a2 == liquidator_account_id@ || a2 == liquidatee_account_id@) && (d2
                            == debt_coin.denom@ || d2 == request_coin_denom@))
                            ==> post_bal.amount_of(a2, d2) == pre_bal.amount_of(a2, d2)
                    &&& (r matches Ok(instrs) && instrs@.len() == 1 && (instrs@[0] matches
                        Instruction::EnqueueStep(st) && st matches Step::Repay {
                            account_id: a,
                            coin: c,
                        } && a@ == liquidatee_account_id@ && c.denom@ == debt_coin.denom@
                        && c.amount == x))
                }
            },
        }
    }))
}

pub fn liquidate_coin(
    config: &Config,
    debt: &DebtLedger,
    balances: &mut PairLedger,
    liquidator_account_id: &String,
    liquidatee_account_id: &String,
    debt_coin: &Coin,
    request_coin_denom: &String,
    health: &Health,
    total_debt_amount: u128,
    debt_price: u128,
    request_price: u128,
    liquidation_discount: u128,
) -> (r: Result<Vec<Instruction>, ContractError>)
    requires
        old(balances).wf(),
        debt.wf(),
        config.wf(),
    ensures
        liquidate_coin_post(
            *config,
            *debt,
            *old(balances),
            *final(balances),
            *liquidator_account_id,
            *liquidatee_account_id,
            *debt_coin,
            *request_coin_denom,
            *health,
            total_debt_amount,
            debt_price,
            request_price,
            liquidation_discount,
            r,
        ),
{
    if *liquidator_account_id == *liquidatee_account_id {
        return Err(ContractError::SelfLiquidation);
    }
    let available = balances.get_amount(liquidatee_account_id, request_coin_denom);
    let (debt_c, request_c) = match calculate_liquidation(
        debt,
        config,
        liquidatee_account_id,
        debt_coin,
        request_coin_denom,
        available,
        health,
        total_debt_amount,
        debt_price,
        request_price,
        liquidation_discount,
    ) {
        Ok(p) => p,
        Err(e) => {
            return Err(e);
        },
    };
    let x = debt_c.amount;
    let y = request_c.amount;
    let o1 = balances.get_amount(liquidator_account_id, &debt_coin.denom);
    let o2 = balances.get_amount(liquidatee_account_id, &debt_coin.denom);
    if o1 < x {
        return Err(ContractError::Underflow);
    }
    if x > u128::MAX - o2 {
        return Err(ContractError::Overflow);
    }
    let same = debt_coin.denom == *request_coin_denom;
    if same {
        if o1 - x > u128::MAX - y {
            return Err(ContractError::Overflow);
        }
        balances.set_amount(liquidator_account_id, &debt_coin.denom, o1 - x + y);
        balances.set_amount(liquidatee_account_id, &debt_coin.denom, o2 + x - y);
    } else {
        let o4 = balances.get_amount(liquidator_account_id, request_coin_denom);
        if y > u128::MAX - o4 {
            return Err(ContractError::Overflow);
        }
        balances.set_amount(liquidator_account_id, &debt_coin.denom, o1 - x);
        balances.set_amount(liquidatee_account_id, &debt_coin.denom, o2 + x);
        balances.set_amount(liquidatee_account_id, request_coin_denom, available - y);
        balances.set_amount(liquidator_account_id, request_coin_denom, o4 + y);
    }
    let mut instrs: Vec<Instruction> = Vec::new();
    instrs.push(
        Instruction::EnqueueStep(
            Step::Repay { account_id: liquidatee_account_id.clone(), coin: debt_c },
        ),
    );
    Ok(instrs)
}

/// Seizes vault collateral from a liquidatable account: the liquidator's
/// debt coins move to the liquidatee for the chained repay step, the seized
/// vault tokens leave the liquidatee's position in deterministic order, and a
/// deferred reconciliation step credits the liquidator with whatever the
/// withdrawals redeem.
/// Everything `liquidate_vault` guarantees, relating the ledgers before and
/// after the call to its result.
pub open spec fn liquidate_vault_post(
    config: Config,
    debt: DebtLedger,
    pre_bal: PairLedger,
    post_bal: PairLedger,
    pre_v: VaultLedger,
    post_v: VaultLedger,
    liquidator_account_id: String,
    liquidatee_account_id: String,
    debt_coin: Coin,
    request_vault: String,
    health: Health,
    total_debt_amount: u128,
    debt_price: u128,
    vault_token_price: u128,
    liquidation_discount: u128,
    lockup: Option<u64>,
    previous_balances: Vec<Coin>,
    r: Result<Vec<Instruction>, ContractError>,
) -> bool {
    &&& post_bal.wf()
    &&& post_v.wf()
    &&& (r is Err ==> post_bal.entries@ == pre_bal.entries@ && post_v.entries@
        == pre_v.entries@)
    &&& (liquidator_account_id@ == liquidatee_account_id@ ==> r == Err::<
        Vec<Instruction>,
        ContractError,
    >(ContractError::SelfLiquidation))
    &&& (liquidator_account_id@ != liquidatee_account_id@ && !pre_v.has_position(
        liquidatee_account_id@,
        request_vault@,
    ) ==> r == Err::<Vec<Instruction>, ContractError>(ContractError::NoPosition))
    &&& (liquidator_account_id@ != liquidatee_account_id@ && pre_v.has_position(
        liquidatee_account_id@,
        request_vault@,
    ) ==> ({
            let avail_int = if lockup is Some {
                pre_v.locked_of(liquidatee_account_id@, request_vault@) + sum_lots(
                    pre_v.lots_of(liquidatee_account_id@, request_vault@),
                )
            } else {
                pre_v.unlocked_of(liquidatee_account_id@, request_vault@) as int
            };
            if avail_int > u128::MAX {
                r == Err::<Vec<Instruction>, ContractError>(ContractError::Overflow)
            } else {
                let outcome = liquidation_outcome(
                    debt,
                    config.max_close_factor,
                    liquidatee_account_id@,
                    debt_coin.denom@,
                    debt_coin.amount,
                    avail_int as u128,
                    health.liquidatable,
                    total_debt_amount,
                    debt_price,
                    vault_token_price,
                    liquidation_discount,
                );
                match outcome {
                    Err(e) => r == Err::<Vec<Instruction>, ContractError>(e),
                    Ok((x, y)) => {
                        let o1 = pre_bal.amount_of(liquidator_account_id@, debt_coin.denom@);
                        let o2 = pre_bal.amount_of(liquidatee_account_id@, debt_coin.denom@);
                        if o1 < x {
                            r == Err::<Vec<Instruction>, ContractError>(ContractError::Underflow)
                        } else if o2 + x > u128::MAX {
                            r == Err::<Vec<Instruction>, ContractError>(ContractError::Overflow)
                        } else {
                            let lots = pre_v.lots_of(liquidatee_account_id@, request_vault@);
                            let taken = lots_taken(lots, y as int);
                            let leftover = lots_shortfall(lots, y as int);
                            &&& r is Ok
                            &&& post_bal.amount_of(liquidator_account_id@, debt_coin.denom@)
                                == o1 - x
                            &&& post_bal.amount_of(liquidatee_account_id@, debt_coin.denom@)
                                == o2 + x
                            &&& forall|a2: Seq<char>, d2: Seq<char>|
                                !((a2 == liquidator_account_id@ || a2 == liquidatee_account_id@)
                                    && d2 == debt_coin.denom@) ==> post_bal.amount_of(
                                    a2,
                                    d2,
                                ) == pre_bal.amount_of(a2, d2)
                            &&& lockup is None ==> post_v.unlocked_of(
                                liquidatee_account_id@,
                                request_vault@,
                            ) == pre_v.unlocked_of(liquidatee_account_id@, request_vault@)
                                - y
                            &&& lockup is Some ==> post_v.lots_of(
                                liquidatee_account_id@,
                                request_vault@,
                            ) == lots_after(lots, y as int) && post_v.locked_of(
                                liquidatee_account_id@,
                                request_vault@,
                            ) == pre_v.locked_of(liquidatee_account_id@, request_vault@)
                                - leftover
                            &&& forall|a2: Seq<char>, v2: Seq<char>|
                                !(a2 == liquidatee_account_id@ && v2 == request_vault@) ==> post_v.view_of(a2, v2) == pre_v.view_of(a2, v2)
                            &&& (r matches Ok(instrs) ==> {
                                let n_mid = if lockup is Some {
                                    taken.len() + (if leftover > 0 {
                                        1int
                                    } else {
                                        0int
                                    })
                                } else {
                                    1int
                                };
                                &&& instrs@.len() == n_mid + 2
                                &&& (instrs@[0] matches Instruction::EnqueueStep(st) && st matches
                                    Step::Repay { account_id: a, coin: c } && a@
                                    == liquidatee_account_id@ && c.denom@ == debt_coin.denom@
                                    && c.amount == x)
                                &&& lockup is None ==> (instrs@[1] matches
                                    Instruction::VaultWithdraw { vault: v, amount: w, force } && v@
                                    == request_vault@ && w == y && force == false)
                                &&& lockup is Some ==> (forall|k: int|
                                    0 <= k < taken.len() ==> (#[trigger] instrs@[1 + k] matches
                                        Instruction::VaultForceWithdrawUnlocking {
                                            vault: v,
                                            lot_id,
                                            amount: w,
                                        } && v@ == request_vault@ && lot_id == taken[k].id && w
                                        == taken[k].amount)) && (leftover > 0 ==> (instrs@[1
                                    + taken.len() as int] matches Instruction::VaultWithdraw {
                                    vault: v,
                                    amount: w,
                                    force,
                                } && v@ == request_vault@ && w == leftover && force == true))
                                &&& (instrs@.last() matches Instruction::EnqueueStep(st)
                                    && st matches Step::UpdateCoinBalances {
                                        account_id: a,
                                        previous_balances: pb,
                                    } && a@ == liquidator_account_id@ && pb@ == previous_balances@)
                            })
                        }
                    },
                }
            }
        }))
}

pub fn liquidate_vault(
    config: &Config,
    debt: &DebtLedger,
    balances: &mut PairLedger,
    vaults: &mut VaultLedger,
    liquidator_account_id: &String,
    liquidatee_account_id: &String,
    debt_coin: &Coin,
    request_vault: &String,
    health: &Health,
    total_debt_amount: u128,
    debt_price: u128,
    vault_token_price: u128,
    liquidation_discount: u128,
    lockup: Option<u64>,
    previous_balances: Vec<Coin>,
) -> (r: Result<Vec<Instruction>, ContractError>)
    requires
        old(balances).wf(),
        old(vaults).wf(),
        debt.wf(),
        config.wf(),
    ensures
        liquidate_vault_post(
            *config,
            *debt,
            *old(balances),
            *final(balances),
            *old(vaults),
            *final(vaults),
            *liquidator_account_id,
            *liquidatee_account_id,
            *debt_coin,
            *request_vault,
            *health,
            total_debt_amount,
            debt_price,
            vault_token_price,
            liquidation_discount,
            lockup,
            previous_balances,
            r,
        ),
{
    if *liquidator_account_id == *liquidatee_account_id {
        return Err(ContractError::SelfLiquidation);
    }
    let i = match vaults.position_index(liquidatee_account_id, request_vault) {
        Some(i) => i,
        None => {
            return Err(ContractError::NoPosition);
        },
    };
    let available: u128 = match lockup {
        Some(_) => {
            let locked = vaults.entries[i].amount.locked;
            let mut acc: u128 = locked;
            let n = vaults.entries[i].amount.unlocking.len();
            let ghost lots = vaults.entries@[i as int].amount.unlocking@;
            let mut k: usize = 0;
            while k < n
                invariant
                    i < vaults.entries@.len(),
                    n == lots.len(),
                    lots == vaults.entries@[i as int].amount.unlocking@,
                    k <= n,
                    locked == vaults.entries@[i as int].amount.locked,
                    acc == locked + sum_lots(lots.take(k as int)),
                    vaults.entries@[i as int].amount.locked + sum_lots(lots) <= u128::MAX || k < n,
                    balances.wf(),
                    vaults.wf(),
                    vaults.entries@ == old(vaults).entries@,
                    balances.entries@ == old(balances).entries@,
                    old(vaults).has_position(liquidatee_account_id@, request_vault@),
                    lots == old(vaults).lots_of(liquidatee_account_id@, request_vault@),
                    locked == old(vaults).locked_of(liquidatee_account_id@, request_vault@),
                    lockup is Some,
                    liquidator_account_id@ != liquidatee_account_id@,
                decreases n - k,
            {
                proof {
                    assert(lots.take(k + 1).drop_last() =~= lots.take(k as int));
                    crate::vault::lemma_sum_lots_prefix_le(lots, k + 1);
                    assert(sum_lots(lots.take(k + 1)) == sum_lots(lots.take(k as int))
                        + lots[k as int].amount);
                    assert(locked + sum_lots(lots) >= acc + lots[k as int].amount);
                }
                if vaults.entries[i].amount.unlocking[k].amount > u128::MAX - acc {
                    return Err(ContractError::Overflow);
                }
                acc = acc + vaults.entries[i].amount.unlocking[k].amount;
                k = k + 1;
            }
            proof {
                assert(lots.take(n as int) =~= lots);
            }
            acc
        },
        None => vaults.entries[i].amount.unlocked,
    };
    let (debt_c, request_c) = match calculate_liquidation(
        debt,
        config,
        liquidatee_account_id,
        debt_coin,
        request_vault,
        available,
        health,
        total_debt_amount,
        debt_price,
        vault_token_price,
        liquidation_discount,
    ) {
        Ok(p) => p,
        Err(e) => {
            return Err(e);
        },
    };
    let x = debt_c.amount;
    let y = request_c.amount;
    let o1 = balances.get_amount(liquidator_account_id, &debt_coin.denom);
    let o2 = balances.get_amount(liquidatee_account_id, &debt_coin.denom);
    if o1 < x {
        return Err(ContractError::Underflow);
    }
    if x > u128::MAX - o2 {
        return Err(ContractError::Overflow);
    }
    balances.set_amount(liquidator_account_id, &debt_coin.denom, o1 - x);
    balances.set_amount(liquidatee_account_id, &debt_coin.denom, o2 + x);
    let mut instrs: Vec<Instruction> = Vec::new();
    instrs.push(
        Instruction::EnqueueStep(
            Step::Repay { account_id: liquidatee_account_id.clone(), coin: debt_c },
        ),
    );
    let mut plan = get_vault_withdraw_msgs(vaults, liquidatee_account_id, request_vault, lockup, y);
    instrs.append(&mut plan);
    instrs.push(
        Instruction::EnqueueStep(
            Step::UpdateCoinBalances {
                account_id: liquidator_account_id.clone(),
                previous_balances,
            },
        ),
    );
    Ok(instrs)
}

/// Drains a liquidated amount out of one vault position and lists the
/// withdrawals the host must perform. For a lockup-free vault the whole
/// amount leaves the Unlocked bucket in one withdrawal. For a lockup vault
/// the unlocking lots are drained first, strictly oldest lot first, each by a
/// forced withdrawal; only what the lots cannot cover leaves the Locked
/// bucket, by one forced withdrawal at the end.
pub fn get_vault_withdraw_msgs(
    vaults: &mut VaultLedger,
    liquidatee_account_id: &String,
    vault_addr: &String,
    lockup: Option<u64>,
    amount: u128,
) -> (instrs: Vec<Instruction>)
    requires
        old(vaults).wf(),
        lockup is None ==> amount <= old(vaults).unlocked_of(
            liquidatee_account_id@,
            vault_addr@,
        ),
        lockup is Some ==> amount <= old(vaults).locked_of(liquidatee_account_id@, vault_addr@)
            + sum_lots(old(vaults).lots_of(liquidatee_account_id@, vault_addr@)),
    ensures
        final(vaults).wf(),
        forall|a2: Seq<char>, v2: Seq<char>|
            !(a2 == liquidatee_account_id@ && v2 == vault_addr@) ==> final(vaults).view_of(a2, v2)
                == old(vaults).view_of(a2, v2),
        lockup is None ==> {
            &&& final(vaults).unlocked_of(liquidatee_account_id@, vault_addr@) == old(vaults).unlocked_of(liquidatee_account_id@, vault_addr@) - amount
            &&& final(vaults).locked_of(liquidatee_account_id@, vault_addr@) == old(vaults).locked_of(liquidatee_account_id@, vault_addr@)
            &&& final(vaults).lots_of(liquidatee_account_id@, vault_addr@) == old(vaults).lots_of(
                liquidatee_account_id@,
                vault_addr@,
            )
            &&& instrs@.len() == 1
            &&& (instrs@[0] matches Instruction::VaultWithdraw { vault: v, amount: x, force } && v@
                == vault_addr@ && x == amount && force == false)
        },
        lockup is Some ==> {
            let lots = old(vaults).lots_of(liquidatee_account_id@, vault_addr@);
            let taken = lots_taken(lots, amount as int);
            let leftover = lots_shortfall(lots, amount as int);
            &&& final(vaults).lots_of(liquidatee_account_id@, vault_addr@) == lots_after(
                lots,
                amount as int,
            )
            &&& final(vaults).locked_of(liquidatee_account_id@, vault_addr@) == old(vaults).locked_of(liquidatee_account_id@, vault_addr@) - leftover
            &&& final(vaults).unlocked_of(liquidatee_account_id@, vault_addr@) == old(vaults).unlocked_of(liquidatee_account_id@, vault_addr@)
            &&& instrs@.len() == taken.len() + (if leftover > 0 {
                1int
            } else {
                0int
            })
            &&& forall|k: int|
                0 <= k < taken.len() ==> (#[trigger] instrs@[k] matches
                    Instruction::VaultForceWithdrawUnlocking { vault: v, lot_id, amount: x } && v@
                    == vault_addr@ && lot_id == taken[k].id && x == taken[k].amount)
            &&& leftover > 0 ==> (instrs@.last() matches Instruction::VaultWithdraw {
                vault: v,
                amount: x,
                force,
            } && v@ == vault_addr@ && x == leftover && force == true)
            &&& leftover > 0 ==> taken =~= lots && lots_after(lots, amount as int) =~= Seq::<
                UnlockingLot,
            >::empty()
        },
{
    let mut instrs: Vec<Instruction> = Vec::new();
    match lockup {
        None => {
            let update = VaultPositionUpdate::Unlocked { amount, kind: UpdateType::Decrement };
            let res = vaults.update_vault_position(liquidatee_account_id, vault_addr, &update);
            proof {
                assert(res is Ok);
            }
            instrs.push(
                Instruction::VaultWithdraw { vault: vault_addr.clone(), amount, force: false },
            );
            instrs
        },
        Some(_) => {
            let ghost lots0 = old(vaults).lots_of(liquidatee_account_id@, vault_addr@);
            let i = match vaults.position_index(liquidatee_account_id, vault_addr) {
                Some(i) => i,
                None => {
                    proof {
                        crate::vault::lemma_sum_lots_nonneg(lots0);
                        lemma_shortfall(lots0, amount as int);
                    }
                    return instrs;
                },
            };
            let ghost s0 = vaults.entries@;
            let mut remaining: u128 = amount;
            let ghost taken0 = lots_taken(lots0, amount as int);
            let ghost mut consumed: Seq<UnlockingLot> = Seq::empty();
            proof {
                assert(taken0 =~= consumed + lots_taken(lots0, amount as int));
            }
            while remaining > 0 && vaults.entries[i].amount.unlocking.len() > 0
                invariant
                    i < vaults.entries@.len(),
                    vaults.entries@.len() == s0.len(),
                    vaults.entries@ == s0.update(i as int, vaults.entries@[i as int]),
                    vaults.entries@[i as int].account_id@ == liquidatee_account_id@,
                    vaults.entries@[i as int].vault_addr@ == vault_addr@,
                    vaults.entries@[i as int].amount.wf(),
                    vaults.entries@[i as int].amount.unlocked == s0[i as int].amount.unlocked,
                    vaults.entries@[i as int].amount.locked == s0[i as int].amount.locked,
                    s0[i as int].amount.locked + sum_lots(
                        vaults.entries@[i as int].amount.unlocking@,
                    ) >= remaining,
                    vault_key_is(s0[i as int], liquidatee_account_id@, vault_addr@),
                    crate::vault::vault_keys_distinct(s0),
                    forall|j: int| 0 <= j < s0.len() && j != i ==> vaults.entries@[j] == s0[j],
                    lots0 == s0[i as int].amount.unlocking@,
                    taken0 =~= consumed + lots_taken(
                        vaults.entries@[i as int].amount.unlocking@,
                        remaining as int,
                    ),
                    lots_after(lots0, amount as int) == lots_after(
                        vaults.entries@[i as int].amount.unlocking@,
                        remaining as int,
                    ),
                    lots_shortfall(lots0, amount as int) == lots_shortfall(
                        vaults.entries@[i as int].amount.unlocking@,
                        remaining as int,
                    ),
                    instrs@.len() == consumed.len(),
                    forall|k: int|
                        0 <= k < consumed.len() ==> (#[trigger] instrs@[k] matches
                            Instruction::VaultForceWithdrawUnlocking {
                                vault: v,
                                lot_id,
                                amount: x,
                            } && v@ == vault_addr@ && lot_id == consumed[k].id && x
                            == consumed[k].amount)
                decreases vaults.entries@[i as int].amount.unlocking@.len(), remaining,
            {
                let ghost cur = vaults.entries@[i as int].amount.unlocking@;
                proof {
                    lemma_sum_lots_first(cur);
                    crate::vault::lemma_sum_lots_nonneg(cur.drop_first());
                }
                let lot_id = vaults.entries[i].amount.unlocking[0].id;
                let lot_amount = vaults.entries[i].amount.unlocking[0].amount;
                let take = if lot_amount <= remaining {
                    lot_amount
                } else {
                    remaining
                };
                if lot_amount <= remaining {
                    self_remove_front(&mut vaults.entries[i].amount.unlocking);
                } else {
                    vaults.entries[i].amount.unlocking[0] = UnlockingLot {
                        id: lot_id,
                        amount: lot_amount - remaining,
                    };
                }
                instrs.push(
                    Instruction::VaultForceWithdrawUnlocking {
                        vault: vault_addr.clone(),
                        lot_id,
                        amount: take,
                    },
                );
                proof {
                    consumed = consumed.push(UnlockingLot { id: lot_id, amount: take });
                    if lot_amount <= remaining {
                        assert(vaults.entries@[i as int].amount.unlocking@ =~= cur.drop_first());
                        assert(lots_taken(cur, remaining as int) =~= seq![cur[0]] + lots_taken(
                            cur.drop_first(),
                            remaining - lot_amount,
                        ));
                        assert(taken0 =~= consumed + lots_taken(
                            cur.drop_first(),
                            remaining - lot_amount,
                        ));
                    } else {
                        assert(vaults.entries@[i as int].amount.unlocking@ =~= seq![
                            UnlockingLot { id: lot_id, amount: (lot_amount - remaining) as u128 },
                        ] + cur.drop_first());
                        lemma_sum_lots_first(vaults.entries@[i as int].amount.unlocking@);
                        crate::vault::lemma_sum_lots_nonneg(
                            vaults.entries@[i as int].amount.unlocking@,
                        );
                        assert(lots_taken(cur, remaining as int) =~= seq![
                            UnlockingLot { id: lot_id, amount: remaining },
                        ]);
                        assert(taken0 =~= consumed + lots_taken(
                            vaults.entries@[i as int].amount.unlocking@,
                            0,
                        ));
                        assert(lots_after(cur, remaining as int) == lots_after(
                            vaults.entries@[i as int].amount.unlocking@,
                            0,
                        ));
                    }
                    assert(vaults.entries@ =~= s0.update(i as int, vaults.entries@[i as int]));
                }
                remaining = remaining - take;
            }
            proof {
                assert(lots_taken(vaults.entries@[i as int].amount.unlocking@, remaining as int)
                    =~= Seq::<UnlockingLot>::empty());
                assert(taken0 =~= consumed);
                assert(lots_after(vaults.entries@[i as int].amount.unlocking@, remaining as int)
                    == vaults.entries@[i as int].amount.unlocking@);
                assert(lots_shortfall(
                    vaults.entries@[i as int].amount.unlocking@,
                    remaining as int,
                ) == remaining as int);
                if remaining > 0 {
                    crate::vault::lemma_sum_lots_nonneg(
                        vaults.entries@[i as int].amount.unlocking@,
                    );
                    lemma_shortfall(lots0, amount as int);
                }
            }
            if remaining > 0 {
                let new_locked = vaults.entries[i].amount.locked - remaining;
                vaults.entries[i].amount.locked = new_locked;
                instrs.push(
                    Instruction::VaultWithdraw {
                        vault: vault_addr.clone(),
                        amount: remaining,
                        force: true,
                    },
                );
                proof {
                    assert(vaults.entries@ =~= s0.update(i as int, vaults.entries@[i as int]));
                }
            }
            proof {
                finish_entry_update(vaults, s0, i as int);
            }
            let ghost s1 = vaults.entries@;
            if vaults.entries[i].amount.is_empty() {
                vaults.entries.remove(i);
                proof {
                    assert forall|a2: Seq<char>, v2: Seq<char>| true implies position_in(
                        vaults.entries@,
                        a2,
                        v2,
                    ) == (if vault_key_is(s1[i as int], a2, v2) {
                        None::<VaultPositionAmount>
                    } else {
                        position_in(s1, a2, v2)
                    }) by {
                        lemma_position_remove(s1, i as int, a2, v2);
                    }
                }
            }
            instrs
        },
    }
}

/// Removes the first element of a lot list.
fn self_remove_front(v: &mut Vec<UnlockingLot>)
    requires
        old(v)@.len() > 0,
    ensures
        final(v)@ == old(v)@.drop_first(),
{
    v.remove(0);
    proof {
        assert(final(v)@ =~= old(v)@.drop_first());
    }
}

/// After a chain of in-place edits of one row, re-establishes the ledger's
/// well-formedness and the pointwise view facts.
proof fn finish_entry_update(vaults: &VaultLedger, s0: Seq<crate::vault::VaultPositionEntry>, i: int)
    requires
        0 <= i < s0.len(),
        vaults.entries@.len() == s0.len(),
        vaults.entries@ == s0.update(i, vaults.entries@[i]),
        crate::vault::vault_keys_distinct(s0),
        vaults.entries@[i].account_id@ == s0[i].account_id@,
        vaults.entries@[i].vault_addr@ == s0[i].vault_addr@,
        forall|j: int| 0 <= j < s0.len() && j != i ==> vaults.entries@[j] == s0[j],
    ensures
        crate::vault::vault_keys_distinct(vaults.entries@),
        forall|a2: Seq<char>, v2: Seq<char>|
            position_in(vaults.entries@, a2, v2) == (if vault_key_is(vaults.entries@[i], a2, v2) {
                Some(vaults.entries@[i].amount)
            } else {
                position_in(s0, a2, v2)
            }),
{
    assert forall|i2: int, j2: int| 0 <= i2 < j2 < vaults.entries@.len() implies !(
    vaults.entries@[i2].account_id@ == vaults.entries@[j2].account_id@
        && vaults.entries@[i2].vault_addr@ == vaults.entries@[j2].vault_addr@) by {
        assert(vaults.entries@[i2].account_id@ == s0[i2].account_id@
            && vaults.entries@[i2].vault_addr@ == s0[i2].vault_addr@);
        assert(vaults.entries@[j2].account_id@ == s0[j2].account_id@
            && vaults.entries@[j2].vault_addr@ == s0[j2].vault_addr@);
    }
    assert forall|a2: Seq<char>, v2: Seq<char>| true implies position_in(vaults.entries@, a2, v2)
        == (if vault_key_is(vaults.entries@[i], a2, v2) {
        Some(vaults.entries@[i].amount)
    } else {
        position_in(s0, a2, v2)
    }) by {
        lemma_position_update(s0, i, vaults.entries@[i], a2, v2);
    }
}

} // verus!
