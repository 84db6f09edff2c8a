use vstd::prelude::*;
use crate::balance_ops;
use crate::config::Config;
use crate::debt;
use crate::health::{assert_max_ltv, max_ltv_ok};
use crate::ledger::PairLedger;
use crate::liquidate;
use crate::state::State;
use crate::types::{Action, Coin, ContractError, Health, Instruction, Step};
use crate::vault_ops;

verus! {

/// The deferred steps one action translates to: none for a deposit (it
/// applies immediately), one for everything else.
pub open spec fn action_steps(account_id: String, sender: String, a: Action) -> Seq<Step> {
    match a {
        Action::Deposit(_) => Seq::empty(),
        Action::Withdraw(c) => seq![Step::Withdraw { account_id, coin: c, recipient: sender }],
        Action::Borrow(c) => seq![Step::Borrow { account_id, coin: c }],
        Action::Repay(c) => seq![Step::Repay { account_id, coin: c }],
        Action::EnterVault { vault, coin } => seq![Step::EnterVault { account_id, vault, coin }],
        Action::ExitVault { vault, amount } => seq![
            Step::ExitVault { account_id, vault, amount },
        ],
        Action::RequestVaultUnlock { vault, amount } => seq![
            Step::RequestVaultUnlock { account_id, vault, amount },
        ],
        Action::ExitVaultUnlocked { id, vault } => seq![
            Step::ExitVaultUnlocked { account_id, vault, position_id: id },
        ],
        Action::LiquidateCoin { liquidatee_account_id, debt_coin, request_coin_denom } => seq![
            Step::LiquidateCoin {
                liquidator_account_id: account_id,
                liquidatee_account_id,
                debt_coin,
                request_coin_denom,
            },
        ],
        Action::LiquidateVault { liquidatee_account_id, debt_coin, request_vault } => seq![
            Step::LiquidateVault {
                liquidator_account_id: account_id,
                liquidatee_account_id,
                debt_coin,
                request_vault,
            },
        ],
        Action::RefundAllCoinBalances => seq![Step::RefundAllCoinBalances { account_id }],
    }
}

/// The deferred-step queue a batch of actions builds, in action order.
pub open spec fn steps_of(s: Seq<Action>, account_id: String, sender: String) -> Seq<Step>
    decreases s.len(),
{
    if s.len() == 0 {
        Seq::empty()
    } else {
        steps_of(s.drop_last(), account_id, sender) + action_steps(account_id, sender, s.last())
    }
}

/// The total amount the batch's deposit actions credit for one denom.
pub open spec fn deposits_sum(s: Seq<Action>, d: Seq<char>) -> int
    decreases s.len(),
{
    if s.len() == 0 {
        0
    } else {
        deposits_sum(s.drop_last(), d) + (match s.last() {
            Action::Deposit(c) => if c.denom@ == d {
                c.amount as int
            } else {
                0
            },
            _ => 0,
        })
    }
}

/// The total amount the attached funds carry for one denom.
pub open spec fn funds_sum(s: Seq<Coin>, d: Seq<char>) -> int
    decreases s.len(),
{
    if s.len() == 0 {
        0
    } else {
        funds_sum(s.drop_last(), d) + if s.last().denom@ == d {
            s.last().amount as int
        } else {
            0
        }
    }
}

pub proof fn lemma_deposits_sum_nonneg(s: Seq<Action>, d: Seq<char>)
    ensures
        deposits_sum(s, d) >= 0,
    decreases s.len(),
{
    if s.len() > 0 {
        lemma_deposits_sum_nonneg(s.drop_last(), d);
    }
}

pub proof fn lemma_deposits_sum_prefix_le(s: Seq<Action>, n: int, d: Seq<char>)
    requires
        0 <= n <= s.len(),
    ensures
        deposits_sum(s.take(n), d) <= deposits_sum(s, d),
    decreases s.len() - n,
{
    if n < s.len() {
        lemma_deposits_sum_prefix_le(s, n + 1, d);
        assert(s.take(n + 1).drop_last() =~= s.take(n));
        assert(deposits_sum(s.take(n), d) <= deposits_sum(s.take(n + 1), d));
    } else {
        assert(s.take(n) =~= s);
    }
}

pub proof fn lemma_funds_sum_at_index(s: Seq<Coin>, i: int)
    requires
        balance_ops::coin_denoms_distinct(s),
        0 <= i < s.len(),
    ensures
        funds_sum(s, s[i].denom@) == s[i].amount,
    decreases s.len(),
{
    if i < s.len() - 1 {
        lemma_funds_sum_at_index(s.drop_last(), i);
        lemma_funds_sum_absent_tail(s, i);
    } else {
        lemma_funds_sum_absent_last(s);
    }
}

proof fn lemma_funds_sum_absent_tail(s: Seq<Coin>, i: int)
    requires
        0 <= i < s.len() - 1,
        s.last().denom@ != s[i].denom@,
    ensures
        funds_sum(s, s[i].denom@) == funds_sum(s.drop_last(), s[i].denom@),
{
}

proof fn lemma_funds_sum_absent_last(s: Seq<Coin>)
    requires
        s.len() > 0,
        forall|j: int| 0 <= j < s.len() - 1 ==> s[j].denom@ != s.last().denom@,
    ensures
        funds_sum(s, s.last().denom@) == s.last().amount,
{
    lemma_funds_sum_absent(s.drop_last(), s.last().denom@);
}

pub proof fn lemma_funds_sum_nonneg(s: Seq<Coin>, d: Seq<char>)
    ensures
        funds_sum(s, d) >= 0,
    decreases s.len(),
{
    if s.len() > 0 {
        lemma_funds_sum_nonneg(s.drop_last(), d);
    }
}

pub proof fn lemma_funds_sum_absent(s: Seq<Coin>, d: Seq<char>)
    requires
        forall|i: int| 0 <= i < s.len() ==> s[i].denom@ != d,
    ensures
        funds_sum(s, d) == 0,
    decreases s.len(),
{
    if s.len() > 0 {
        lemma_funds_sum_absent(s.drop_last(), d);
    }
}

/// The first error the deposit fold hits, scanning the actions from index
/// `i`: an unlisted deposit denom, or a deposit the remaining attached funds
/// cannot cover; `None` when every deposit goes through.
pub open spec fn first_deposit_error(
    config: Config,
    actions: Seq<Action>,
    funds: Seq<Coin>,
    i: nat,
) -> Option<ContractError>
    decreases actions.len() - i,
{
    if i >= actions.len() {
        None
    } else {
        match actions[i as int] {
            Action::Deposit(c) => if !config.coin_allowed(c.denom@) {
                Some(ContractError::NotWhitelisted(c.denom))
            } else if deposits_sum(actions.take(i as int + 1), c.denom@) > funds_sum(
                funds,
                c.denom@,
            ) {
                Some(ContractError::FundsMismatch)
            } else {
                first_deposit_error(config, actions, funds, i + 1)
            },
            _ => first_deposit_error(config, actions, funds, i + 1),
        }
    }
}

/// Turns a batch of user actions into state transitions: deposits apply
/// immediately against the attached funds, every other action becomes one
/// deferred step, and two trailing steps always close the queue, asserting
/// the single-vault policy and health non-regression. The attached funds must
/// be consumed exactly; the caller must own the account and be no protocol
/// contract.
pub fn dispatch_actions(
    config: &Config,
    balances: &mut PairLedger,
    caller: &String,
    owner: &String,
    account_id: &String,
    actions: &Vec<Action>,
    funds: &Vec<Coin>,
    prev_health: &Health,
) -> (r: Result<Vec<Step>, ContractError>)
    requires
        old(balances).wf(),
    ensures
        final(balances).wf(),
        r is Err ==> final(balances).entries@ == old(balances).entries@,
        caller@ != owner@ ==> r == Err::<Vec<Step>, ContractError>(ContractError::NotTokenOwner),
        caller@ == owner@ && config.protocol_contract(caller@) ==> r == Err::<
            Vec<Step>,
            ContractError,
        >(ContractError::IllegalContractCaller),
        caller@ == owner@ && !config.protocol_contract(caller@) && (exists|i: int|
            0 <= i < funds@.len() && #[trigger] funds@[i].amount == 0) ==> r == Err::<
            Vec<Step>,
            ContractError,
        >(ContractError::NoAmount),
        caller@ == owner@ && !config.protocol_contract(caller@) && (forall|i: int|
            0 <= i < funds@.len() ==> #[trigger] funds@[i].amount > 0)
            && !balance_ops::coin_denoms_distinct(funds@) ==> r == Err::<Vec<Step>, ContractError>(
            ContractError::Duplicates,
        ),
        caller@ == owner@ && !config.protocol_contract(caller@) && (forall|i: int|
            0 <= i < funds@.len() ==> #[trigger] funds@[i].amount > 0)
            && balance_ops::coin_denoms_distinct(funds@) ==> (first_deposit_error(
            *config,
            actions@,
            funds@,
            0,
        ) matches Some(e) ==> r == Err::<Vec<Step>, ContractError>(e)),
        caller@ == owner@ && !config.protocol_contract(caller@) && (forall|i: int|
            0 <= i < funds@.len() ==> #[trigger] funds@[i].amount > 0)
            && balance_ops::coin_denoms_distinct(funds@) && first_deposit_error(
            *config,
            actions@,
            funds@,
            0,
        ) is None && !(forall|d: Seq<char>| deposits_sum(actions@, d) == funds_sum(funds@, d))
            ==> (r matches Err(err) && err matches ContractError::ExtraFundsReceived(rem)
            && balance_ops::coin_denoms_distinct(rem@) && (forall|j: int|
            0 <= j < rem@.len() ==> #[trigger] rem@[j].amount > 0) && (forall|d: Seq<char>|
            #![trigger balance_ops::coin_amount_in(rem@, d)]
            balance_ops::coin_amount_in(rem@, d) == (if funds_sum(funds@, d) > deposits_sum(
                actions@,
                d,
            ) {
                (funds_sum(funds@, d) - deposits_sum(actions@, d)) as u128
            } else {
                0u128
            }))),
        caller@ == owner@ && !config.protocol_contract(caller@) && (forall|i: int|
            0 <= i < funds@.len() ==> #[trigger] funds@[i].amount > 0)
            && balance_ops::coin_denoms_distinct(funds@) && first_deposit_error(
            *config,
            actions@,
            funds@,
            0,
        ) is None && (forall|d: Seq<char>| deposits_sum(actions@, d) == funds_sum(funds@, d)) && !(
        forall|i: int|
            0 <= i < funds@.len() ==> old(balances).amount_of(
                account_id@,
                #[trigger] funds@[i].denom@,
            ) + funds@[i].amount <= u128::MAX) ==> r == Err::<Vec<Step>, ContractError>(
            ContractError::Overflow,
        ),
        r is Ok <==> ({
            &&& caller@ == owner@
            &&& !config.protocol_contract(caller@)
            &&& forall|i: int| 0 <= i < funds@.len() ==> #[trigger] funds@[i].amount > 0
            &&& balance_ops::coin_denoms_distinct(funds@)
            &&& forall|i: int|
                0 <= i < actions@.len() ==> (#[trigger] actions@[i] matches Action::Deposit(c)
                    ==> config.coin_allowed(c.denom@))
            &&& forall|d: Seq<char>| deposits_sum(actions@, d) == funds_sum(funds@, d)
            &&& forall|i: int|
                0 <= i < funds@.len() ==> old(balances).amount_of(
                    account_id@,
                    #[trigger] funds@[i].denom@,
                ) + funds@[i].amount <= u128::MAX
        }),
        r matches Ok(steps) ==> {
            let body = steps_of(actions@, *account_id, *caller);
            &&& steps@.len() == body.len() + 2
            &&& steps@.take(body.len() as int) == body
            &&& steps@[body.len() as int] == (Step::AssertOneVaultPositionOnly {
                account_id: *account_id,
            })
            &&& steps@[body.len() as int + 1] == (Step::AssertMaxLtv {
                account_id: *account_id,
                prev_health: *prev_health,
            })
            &&& forall|d: Seq<char>|
                final(balances).amount_of(account_id@, d) == old(balances).amount_of(account_id@, d)
                    + funds_sum(funds@, d)
            &&& forall|a2: Seq<char>, d2: Seq<char>|
                a2 != account_id@ ==> final(balances).amount_of(a2, d2) == old(balances).amount_of(
                    a2,
                    d2,
                )
        },
{
    if *caller != *owner {
        return Err(ContractError::NotTokenOwner);
    }
    if config.is_contract_address(caller) {
        return Err(ContractError::IllegalContractCaller);
    }
    let n_funds = funds.len();
    for i in 0..n_funds
        invariant
            n_funds == funds@.len(),
            caller@ == owner@,
            !config.protocol_contract(caller@),
            balances.wf(),
            balances.entries@ == old(balances).entries@,
            forall|j: int| 0 <= j < i ==> #[trigger] funds@[j].amount > 0,
    {
        if funds[i].amount == 0 {
            return Err(ContractError::NoAmount);
        }
    }
    if !balance_ops::check_coin_denoms_distinct(funds) {
        return Err(ContractError::Duplicates);
    }
    // a running multiset of the attached funds, consumed by the deposits
    let mut received = PairLedger::new();
    for i in 0..n_funds
        invariant
            n_funds == funds@.len(),
            caller@ == owner@,
            !config.protocol_contract(caller@),
            balances.wf(),
            balances.entries@ == old(balances).entries@,
            balance_ops::coin_denoms_distinct(funds@),
            forall|j: int| 0 <= j < n_funds ==> #[trigger] funds@[j].amount > 0,
            received.wf(),
            forall|d: Seq<char>|
                received.amount_of(account_id@, d) == funds_sum(funds@.take(i as int), d),
            forall|a2: Seq<char>, d: Seq<char>| a2 != account_id@ ==> received.amount_of(a2, d) == 0,
    {
        let have = received.get_amount(account_id, &funds[i].denom);
        proof {
            assert(funds@.take(i + 1).drop_last() =~= funds@.take(i as int));
        }
        if funds[i].amount > u128::MAX - have {
            proof {
                lemma_funds_sum_absent_on_prefix(funds@, i as int);
                assert(false);
            }
            return Err(ContractError::Overflow);
        }
        received.set_amount(account_id, &funds[i].denom, have + funds[i].amount);
    }
    proof {
        assert(funds@.take(n_funds as int) =~= funds@);
    }
    // fold over the actions: deposits consume funds now, the rest enqueue
    proof {
        assert forall|d: Seq<char>| true implies funds_sum(funds@, d) >= 0 by {
            lemma_funds_sum_nonneg(funds@, d);
        }
    }
    let mut steps: Vec<Step> = Vec::new();
    let n_actions = actions.len();
    for i in 0..n_actions
        invariant
            n_actions == actions@.len(),
            caller@ == owner@,
            !config.protocol_contract(caller@),
            balance_ops::coin_denoms_distinct(funds@),
            forall|j: int| 0 <= j < funds@.len() ==> #[trigger] funds@[j].amount > 0,
            received.wf(),
            forall|d: Seq<char>|
                received.amount_of(account_id@, d) == funds_sum(funds@, d) - deposits_sum(
                    actions@.take(i as int),
                    d,
                ),
            forall|a2: Seq<char>, d: Seq<char>| a2 != account_id@ ==> received.amount_of(a2, d) == 0,
            forall|d: Seq<char>| deposits_sum(actions@.take(i as int), d) <= funds_sum(funds@, d),
            forall|j: int|
                0 <= j < i ==> (#[trigger] actions@[j] matches Action::Deposit(c)
                    ==> config.coin_allowed(c.denom@)),
            steps@ == steps_of(actions@.take(i as int), *account_id, *caller),
            first_deposit_error(*config, actions@, funds@, i as nat) == first_deposit_error(
                *config,
                actions@,
                funds@,
                0,
            ),
            balances.wf(),
            balances.entries@ == old(balances).entries@,
    {
        let ghost pre = actions@.take(i as int);
        proof {
            assert(actions@.take(i + 1).drop_last() =~= actions@.take(i as int));
        }
        match &actions[i] {
            Action::Deposit(c) => {
                match config.assert_coin_is_whitelisted(&c.denom) {
                    Ok(()) => (),
                    Err(e) => {
                        proof {
                            assert(actions@[i as int] matches Action::Deposit(c2)
                                && !config.coin_allowed(c2.denom@));
                            assert(first_deposit_error(*config, actions@, funds@, i as nat)
                                == Some(ContractError::NotWhitelisted(c.denom)));
                        }
                        return Err(e);
                    },
                }
                let have = received.get_amount(account_id, &c.denom);
                if c.amount > have {
                    proof {
                        lemma_deposits_sum_prefix_le(actions@, i + 1, c.denom@);
                        assert(deposits_sum(actions@.take(i + 1), c.denom@) > funds_sum(
                            funds@,
                            c.denom@,
                        ));
                        assert(first_deposit_error(*config, actions@, funds@, i as nat)
                            == Some(ContractError::FundsMismatch));
                    }
                    return Err(ContractError::FundsMismatch);
                }
                received.set_amount(account_id, &c.denom, have - c.amount);
                proof {
                    assert(deposits_sum(actions@.take(i + 1), c.denom@) <= funds_sum(
                        funds@,
                        c.denom@,
                    ));
                }
            },
            Action::Withdraw(c) => {
                steps.push(
                    Step::Withdraw {
                        account_id: account_id.clone(),
                        coin: c.duplicate(),
                        recipient: caller.clone(),
                    },
                );
            },
            Action::Borrow(c) => {
                steps.push(Step::Borrow { account_id: account_id.clone(), coin: c.duplicate() });
            },
            Action::Repay(c) => {
                steps.push(Step::Repay { account_id: account_id.clone(), coin: c.duplicate() });
            },
            Action::EnterVault { vault, coin } => {
                steps.push(
                    Step::EnterVault {
                        account_id: account_id.clone(),
                        vault: vault.clone(),
                        coin: coin.duplicate(),
                    },
                );
            },
            Action::ExitVault { vault, amount } => {
                steps.push(
                    Step::ExitVault {
                        account_id: account_id.clone(),
                        vault: vault.clone(),
                        amount: *amount,
                    },
                );
            },
            Action::RequestVaultUnlock { vault, amount } => {
                steps.push(
                    Step::RequestVaultUnlock {
                        account_id: account_id.clone(),
                        vault: vault.clone(),
                        amount: *amount,
                    },
                );
            },
            Action::ExitVaultUnlocked { id, vault } => {
                steps.push(
                    Step::ExitVaultUnlocked {
                        account_id: account_id.clone(),
                        vault: vault.clone(),
                        position_id: *id,
                    },
                );
            },
            Action::LiquidateCoin { liquidatee_account_id, debt_coin, request_coin_denom } => {
                steps.push(
                    Step::LiquidateCoin {
                        liquidator_account_id: account_id.clone(),
                        liquidatee_account_id: liquidatee_account_id.clone(),
                        debt_coin: debt_coin.duplicate(),
                        request_coin_denom: request_coin_denom.clone(),
                    },
                );
            },
            Action::LiquidateVault { liquidatee_account_id, debt_coin, request_vault } => {
                steps.push(
                    Step::LiquidateVault {
                        liquidator_account_id: account_id.clone(),
                        liquidatee_account_id: liquidatee_account_id.clone(),
                        debt_coin: debt_coin.duplicate(),
                        request_vault: request_vault.clone(),
                    },
                );
            },
            Action::RefundAllCoinBalances => {
                steps.push(Step::RefundAllCoinBalances { account_id: account_id.clone() });
            },
        }
        proof {
            assert(steps@ =~= steps_of(actions@.take(i + 1), *account_id, *caller));
            assert(first_deposit_error(*config, actions@, funds@, i as nat)
                == first_deposit_error(*config, actions@, funds@, (i + 1) as nat));
        }
    }
    proof {
        assert(actions@.take(n_actions as int) =~= actions@);
        assert(first_deposit_error(*config, actions@, funds@, n_actions as nat) is None);
    }
    // any leftover attached funds would be lost in the contract: reject them
    if received.entries.len() > 0 {
        proof {
            let e0 = received.entries@[0];
            crate::ledger::lemma_amount_at_index(received.entries@, 0);
            assert(received.amount_of(e0.account_id@, e0.denom@) > 0);
            assert(e0.account_id@ == account_id@);
            assert(deposits_sum(actions@, e0.denom@) != funds_sum(funds@, e0.denom@));
        }
        let mut rem: Vec<Coin> = Vec::new();
        let nf = funds.len();
        proof {
            assert(funds@.take(0) =~= Seq::<Coin>::empty());
            assert forall|d: Seq<char>|
                true implies #[trigger] balance_ops::coin_amount_in(rem@, d) == (if funds_sum(
                funds@.take(0),
                d,
            ) > deposits_sum(actions@, d) {
                (funds_sum(funds@.take(0), d) - deposits_sum(actions@, d)) as u128
            } else {
                0u128
            }) by {
                lemma_deposits_sum_nonneg(actions@, d);
                assert(balance_ops::coin_amount_in(rem@, d) == 0);
            }
        }
        let mut i2: usize = 0;
        while i2 < nf
            invariant
                i2 <= nf,
                nf == funds@.len(),
                balance_ops::coin_denoms_distinct(funds@),
                received.wf(),
                forall|d: Seq<char>|
                    received.amount_of(account_id@, d) == funds_sum(funds@, d) - deposits_sum(
                        actions@,
                        d,
                    ),
                balance_ops::coin_denoms_distinct(rem@),
                forall|j: int| 0 <= j < rem@.len() ==> #[trigger] rem@[j].amount > 0,
                forall|j: int|
                    #![trigger rem@[j]]
                    0 <= j < rem@.len() ==> (exists|jj: int|
                        0 <= jj < i2 && rem@[j].denom@ == #[trigger] funds@[jj].denom@),
                forall|d: Seq<char>|
                    #![trigger balance_ops::coin_amount_in(rem@, d)]
                    balance_ops::coin_amount_in(rem@, d) == (if funds_sum(
                        funds@.take(i2 as int),
                        d,
                    ) > deposits_sum(actions@, d) {
                        (funds_sum(funds@.take(i2 as int), d) - deposits_sum(actions@, d)) as u128
                    } else {
                        0u128
                    }),
            decreases nf - i2,
        {
            let ghost di = funds@[i2 as int].denom@;
            proof {
                assert(funds@.take(i2 + 1).drop_last() =~= funds@.take(i2 as int));
                lemma_funds_sum_at_index(funds@, i2 as int);
                lemma_funds_sum_absent_on_prefix(funds@, i2 as int);
                assert forall|j: int| 0 <= j < rem@.len() implies #[trigger] rem@[j].denom@
                    != di by {
                    let jj = choose|jj: int|
                        0 <= jj < i2 && rem@[j].denom@ == #[trigger] funds@[jj].denom@;
                }
            }
            let rem_amt = received.get_amount(account_id, &funds[i2].denom);
            let ghost rem0 = rem@;
            if rem_amt == 0 {
                proof {
                    assert forall|j: int| #![trigger rem@[j]] 0 <= j < rem@.len() implies (exists|
                    jj: int|
                        0 <= jj < i2 + 1 && rem@[j].denom@ == #[trigger] funds@[jj].denom@) by {
                        let jj = choose|jj: int|
                            0 <= jj < i2 && rem@[j].denom@ == #[trigger] funds@[jj].denom@;
                        assert(0 <= jj < i2 + 1 && rem@[j].denom@ == funds@[jj].denom@);
                    }
                }
            }
            if rem_amt > 0 {
                rem.push(Coin::new(&funds[i2].denom, rem_amt));
                proof {
                    assert(rem@.last().denom@ == di && rem@.last().amount == rem_amt);
                    assert(rem@.drop_last() =~= rem0);
                    assert forall|j: int| #![trigger rem@[j]] 0 <= j < rem@.len() implies (exists|
                    jj: int|
                        0 <= jj < i2 + 1 && rem@[j].denom@ == #[trigger] funds@[jj].denom@) by {
                        if j < rem0.len() {
                            let jj = choose|jj: int|
                                0 <= jj < i2 && rem0[j].denom@ == #[trigger] funds@[jj].denom@;
                            assert(0 <= jj < i2 + 1 && rem@[j].denom@ == funds@[jj].denom@);
                        } else {
                            assert(rem@[j].denom@ == funds@[i2 as int].denom@);
                        }
                    }
                }
            }
            proof {
                lemma_deposits_sum_nonneg(actions@, di);
                assert forall|d: Seq<char>| true implies #[trigger] balance_ops::coin_amount_in(
                    rem@,
                    d,
                ) == (if funds_sum(funds@.take(i2 + 1), d) > deposits_sum(actions@, d) {
                    (funds_sum(funds@.take(i2 + 1), d) - deposits_sum(actions@, d)) as u128
                } else {
                    0u128
                }) by {
                    lemma_deposits_sum_nonneg(actions@, d);
                    if d == di {
                        assert(funds_sum(funds@.take(i2 + 1), d) == funds_sum(funds@, d));
                        if rem_amt > 0 {
                            assert(balance_ops::coin_amount_in(rem@, d) == rem_amt);
                        } else {
                            assert(balance_ops::coin_amount_in(rem@, d) == balance_ops::coin_amount_in(
                                rem0,
                                d,
                            ));
                        }
                    } else {
                        assert(funds_sum(funds@.take(i2 + 1), d) == funds_sum(
                            funds@.take(i2 as int),
                            d,
                        ));
                        if rem_amt > 0 {
                            assert(balance_ops::coin_amount_in(rem@, d) == balance_ops::coin_amount_in(
                                rem0,
                                d,
                            ));
                        }
                    }
                }
            }
            i2 = i2 + 1;
        }
        proof {
            assert(funds@.take(nf as int) =~= funds@);
        }
        return Err(ContractError::ExtraFundsReceived(rem));
    }
    proof {
        assert forall|d: Seq<char>| true implies deposits_sum(actions@, d) == funds_sum(
            funds@,
            d,
        ) by {
            received.lemma_contains_iff_nonzero(account_id@, d);
        }
    }
    // overflow pre-check, so that a failing batch leaves the ledger untouched
    for i in 0..n_funds
        invariant
            n_funds == funds@.len(),
            caller@ == owner@,
            !config.protocol_contract(caller@),
            balance_ops::coin_denoms_distinct(funds@),
            forall|j: int| 0 <= j < n_funds ==> #[trigger] funds@[j].amount > 0,
            forall|j: int|
                0 <= j < actions@.len() ==> (#[trigger] actions@[j] matches Action::Deposit(c)
                    ==> config.coin_allowed(c.denom@)),
            forall|d: Seq<char>| deposits_sum(actions@, d) == funds_sum(funds@, d),
            first_deposit_error(*config, actions@, funds@, 0) is None,
            balances.wf(),
            balances.entries@ == old(balances).entries@,
            forall|j: int|
                0 <= j < i ==> old(balances).amount_of(account_id@, #[trigger] funds@[j].denom@)
                    + funds@[j].amount <= u128::MAX,
    {
        let bal = balances.get_amount(account_id, &funds[i].denom);
        if funds[i].amount > u128::MAX - bal {
            return Err(ContractError::Overflow);
        }
    }
    // credit the consumed funds: every deposit was matched exactly
    let ghost bal0 = *balances;
    for i in 0..n_funds
        invariant
            n_funds == funds@.len(),
            balance_ops::coin_denoms_distinct(funds@),
            balances.wf(),
            bal0 == *old(balances),
            forall|j: int|
                0 <= j < n_funds ==> bal0.amount_of(account_id@, #[trigger] funds@[j].denom@)
                    + funds@[j].amount <= u128::MAX,
            forall|j: int|
                0 <= j < i ==> balances.amount_of(account_id@, #[trigger] funds@[j].denom@)
                    == bal0.amount_of(account_id@, funds@[j].denom@) + funds@[j].amount,
            forall|a2: Seq<char>, d2: Seq<char>|
                (a2 != account_id@ || (forall|j: int|
                    0 <= j < i ==> #[trigger] funds@[j].denom@ != d2)) ==> balances.amount_of(
                    a2,
                    d2,
                ) == bal0.amount_of(a2, d2),
    {
        let bal = balances.get_amount(account_id, &funds[i].denom);
        balances.set_amount(account_id, &funds[i].denom, bal + funds[i].amount);
    }
    proof {
        assert forall|d: Seq<char>| true implies balances.amount_of(account_id@, d)
            == bal0.amount_of(account_id@, d) + funds_sum(funds@, d) by {
            if exists|j: int| 0 <= j < funds@.len() && #[trigger] funds@[j].denom@ == d {
                let j = choose|j: int| 0 <= j < funds@.len() && #[trigger] funds@[j].denom@ == d;
                lemma_funds_sum_at_index(funds@, j);
            } else {
                lemma_funds_sum_absent(funds@, d);
            }
        }
    }
    // the two trailing assertions close every queue, in fixed order
    steps.push(Step::AssertOneVaultPositionOnly { account_id: account_id.clone() });
    steps.push(
        Step::AssertMaxLtv { account_id: account_id.clone(), prev_health: *prev_health },
    );
    proof {
        assert(steps@.take(steps@.len() - 2) =~= steps_of(actions@, *account_id, *caller));
    }
    Ok(steps)
}

/// Everything a deferred step may need from the collaborators, read by the
/// host immediately before the step runs and treated as authoritative for it.
#[derive(Debug)]
pub struct Observations {
    /// The lending pool's total outstanding debt for the step's debt denom.
    pub total_debt_amount: u128,
    /// The health evaluator's verdict on the step's subject account.
    pub health: Health,
    /// The vault's lockup duration, if it has one.
    pub lockup: Option<u64>,
    /// Whether the vault confirms the named unlocking lot as matured.
    pub unlock_matured: bool,
    /// The vault's base token denom.
    pub vault_base_token: String,
    /// The oracle's value of the coin entering a vault.
    pub deposit_value: u128,
    /// The oracle's value of the protocol's current holding in the vault.
    pub vault_balance_value: u128,
    /// The oracle's value of the vault's configured deposit cap.
    pub deposit_cap_value: u128,
    /// The protocol's current balance of the vault's token.
    pub vault_balance: u128,
    /// The oracle price of the debt denom, as fixed-point atomics.
    pub debt_price: u128,
    /// The oracle price of the requested collateral, as fixed-point atomics.
    pub request_price: u128,
    /// The liquidation discount, as fixed-point atomics below one.
    pub liquidation_discount: u128,
    /// The account owner the ownership registry reports.
    pub account_owner: String,
    /// The protocol's external balances of the denoms a step reconciles.
    pub external_balances: Vec<Coin>,
}

/// Everything `execute_callback` guarantees: any caller but the dispatcher
/// identity itself is turned away with the state untouched, and each step
/// kind carries the full postcondition of its handler, together with the
/// frame facts for the state components the handler never touches.
pub open spec fn callback_post(
    pre: State,
    post: State,
    caller: String,
    contract_addr: String,
    step: Step,
    obs: Observations,
    r: Result<Vec<Instruction>, ContractError>,
) -> bool {
    &&& post.config == pre.config
    &&& (caller@ != contract_addr@ ==> r == Err::<Vec<Instruction>, ContractError>(
        ContractError::ExternalInvocation,
    ) && post == pre)
    &&& (caller@ == contract_addr@ ==> match step {
        Step::Withdraw { account_id, coin, recipient } => {
            &&& balance_ops::withdraw_post(
                pre.config,
                pre.balances,
                post.balances,
                account_id,
                coin,
                recipient,
                r,
            )
            &&& post.debt == pre.debt
            &&& post.vaults == pre.vaults
        },
        Step::Borrow { account_id, coin } => {
            &&& debt::borrow_post(
                pre.config,
                pre.debt,
                post.debt,
                pre.balances,
                post.balances,
                account_id,
                coin,
                obs.total_debt_amount,
                r,
            )
            &&& post.vaults == pre.vaults
        },
        Step::Repay { account_id, coin } => {
            &&& debt::repay_post(
                pre.config,
                pre.debt,
                post.debt,
                pre.balances,
                post.balances,
                account_id,
                coin,
                obs.total_debt_amount,
                r,
            )
            &&& post.vaults == pre.vaults
        },
        Step::EnterVault { account_id, vault, coin } => {
            &&& vault_ops::enter_vault_post(
                pre.config,
                pre.balances,
                post.balances,
                account_id,
                vault,
                coin,
                obs.vault_base_token,
                obs.deposit_value,
                obs.vault_balance_value,
                obs.deposit_cap_value,
                obs.vault_balance,
                r,
            )
            &&& post.debt == pre.debt
            &&& post.vaults == pre.vaults
        },
        Step::UpdateVaultCoinBalance { vault, account_id, previous_total_balance } => {
            &&& vault_ops::update_vault_coin_balance_post(
                pre.vaults,
                post.vaults,
                vault,
                account_id,
                previous_total_balance,
                obs.vault_balance,
                obs.lockup,
                (match r {
                    Ok(_) => Ok::<(), ContractError>(()),
                    Err(e) => Err(e),
                }),
            )
            &&& (r matches Ok(v) ==> v@.len() == 0)
            &&& post.balances == pre.balances
            &&& post.debt == pre.debt
        },
        Step::ExitVault { account_id, vault, amount } => {
            &&& vault_ops::exit_vault_post(
                pre.vaults,
                post.vaults,
                account_id,
                vault,
                amount,
                obs.lockup,
                r,
            )
            &&& post.balances == pre.balances
            &&& post.debt == pre.debt
        },
        Step::RequestVaultUnlock { account_id, vault, amount } => {
            &&& vault_ops::request_vault_unlock_post(
                pre.config,
                pre.vaults,
                post.vaults,
                account_id,
                vault,
                amount,
                r,
            )
            &&& post.balances == pre.balances
            &&& post.debt == pre.debt
        },
        Step::ExitVaultUnlocked { account_id, vault, position_id } => {
            &&& vault_ops::exit_vault_unlocked_post(
                pre.vaults,
                post.vaults,
                account_id,
                vault,
                position_id,
                obs.unlock_matured,
                r,
            )
            &&& post.balances == pre.balances
            &&& post.debt == pre.debt
        },
        Step::LiquidateCoin {
            liquidator_account_id,
            liquidatee_account_id,
            debt_coin,
            request_coin_denom,
        } => {
            &&& liquidate::liquidate_coin_post(
                pre.config,
                pre.debt,
                pre.balances,
                post.balances,
                liquidator_account_id,
                liquidatee_account_id,
                debt_coin,
                request_coin_denom,
                obs.health,
                obs.total_debt_amount,
                obs.debt_price,
                obs.request_price,
                obs.liquidation_discount,
                r,
            )
            &&& post.debt == pre.debt
            &&& post.vaults == pre.vaults
        },
        Step::LiquidateVault {
            liquidator_account_id,
            liquidatee_account_id,
            debt_coin,
            request_vault,
        } => {
            &&& liquidate::liquidate_vault_post(
                pre.config,
                pre.debt,
                pre.balances,
                post.balances,
                pre.vaults,
                post.vaults,
                liquidator_account_id,
                liquidatee_account_id,
                debt_coin,
                request_vault,
                obs.health,
                obs.total_debt_amount,
                obs.debt_price,
                obs.request_price,
                obs.liquidation_discount,
                obs.lockup,
                obs.external_balances,
                r,
            )
            &&& post.debt == pre.debt
        },
        Step::UpdateCoinBalances { account_id, previous_balances } => {
            if !balance_ops::coin_denoms_distinct(obs.external_balances@) {
                r == Err::<Vec<Instruction>, ContractError>(ContractError::Duplicates) && post
                    == pre
            } else {
                &&& balance_ops::update_coin_balances_post(
                    pre.balances,
                    post.balances,
                    account_id,
                    previous_balances,
                    obs.external_balances,
                    (match r {
                        Ok(_) => Ok::<(), ContractError>(()),
                        Err(e) => Err(e),
                    }),
                )
                &&& (r matches Ok(v) ==> v@.len() == 0)
                &&& post.debt == pre.debt
                &&& post.vaults == pre.vaults
            }
        },
        Step::RefundAllCoinBalances { account_id } => {
            &&& r matches Ok(instrs) && balance_ops::refund_post(
                pre.balances,
                post.balances,
                account_id,
                obs.account_owner,
                instrs,
            )
            &&& post.debt == pre.debt
            &&& post.vaults == pre.vaults
        },
        Step::AssertOneVaultPositionOnly { account_id } => {
            &&& post == pre
            &&& (r is Ok <==> pre.vaults.position_count_of(account_id@) <= 1)
            &&& (r is Err ==> r == Err::<Vec<Instruction>, ContractError>(
                ContractError::OnlyOneVaultPositionAllowed,
            ))
            &&& (r matches Ok(v) ==> v@.len() == 0)
        },
        Step::AssertMaxLtv { account_id: _, prev_health } => {
            &&& post == pre
            &&& (r is Ok <==> max_ltv_ok(prev_health, obs.health))
            &&& (r is Err ==> r == Err::<Vec<Instruction>, ContractError>(
                ContractError::AboveMaxLtv,
            ))
            &&& (r matches Ok(v) ==> v@.len() == 0)
        },
    })
}

/// Executes one deferred step against the state: the privileged entry that
/// only the dispatcher identity itself may invoke. Each step kind forwards to
/// its handler; the two assertion steps read the state and mutate nothing.
pub fn execute_callback(
    state: &mut State,
    caller: &String,
    contract_addr: &String,
    step: &Step,
    obs: &Observations,
) -> (r: Result<Vec<Instruction>, ContractError>)
    requires
        old(state).wf(),
    ensures
        final(state).wf(),
        callback_post(*old(state), *final(state), *caller, *contract_addr, *step, *obs, r),
{
    if *caller != *contract_addr {
        return Err(ContractError::ExternalInvocation);
    }
    match step {
        Step::Withdraw { account_id, coin, recipient } => balance_ops::withdraw(
            &state.config,
            &mut state.balances,
            account_id,
            coin,
            recipient,
        ),
        Step::Borrow { account_id, coin } => debt::borrow(
            &state.config,
            &mut state.debt,
            &mut state.balances,
            account_id,
            coin,
            obs.total_debt_amount,
        ),
        Step::Repay { account_id, coin } => debt::repay(
            &state.config,
            &mut state.debt,
            &mut state.balances,
            account_id,
            coin,
            obs.total_debt_amount,
        ),
        Step::EnterVault { account_id, vault, coin } => vault_ops::enter_vault(
            &state.config,
            &mut state.balances,
            account_id,
            vault,
            coin,
            &obs.vault_base_token,
            obs.deposit_value,
            obs.vault_balance_value,
            obs.deposit_cap_value,
            obs.vault_balance,
        ),
        Step::UpdateVaultCoinBalance { vault, account_id, previous_total_balance } => {
            match vault_ops::update_vault_coin_balance(
                &mut state.vaults,
                vault,
                account_id,
                *previous_total_balance,
                obs.vault_balance,
                obs.lockup,
            ) {
                Ok(()) => Ok(Vec::new()),
                Err(e) => Err(e),
            }
        },
        Step::ExitVault { account_id, vault, amount } => vault_ops::exit_vault(
            &mut state.vaults,
            account_id,
            vault,
            *amount,
            obs.lockup,
        ),
        Step::RequestVaultUnlock { account_id, vault, amount } => {
            vault_ops::request_vault_unlock(
                &state.config,
                &mut state.vaults,
                account_id,
                vault,
                *amount,
            )
        },
        Step::ExitVaultUnlocked { account_id, vault, position_id } => {
            vault_ops::exit_vault_unlocked(
                &mut state.vaults,
                account_id,
                vault,
                *position_id,
                obs.unlock_matured,
            )
        },
        Step::LiquidateCoin {
            liquidator_account_id,
            liquidatee_account_id,
            debt_coin,
            request_coin_denom,
        } => liquidate::liquidate_coin(
            &state.config,
            &state.debt,
            &mut state.balances,
            liquidator_account_id,
            liquidatee_account_id,
            debt_coin,
            request_coin_denom,
            &obs.health,
            obs.total_debt_amount,
            obs.debt_price,
            obs.request_price,
            obs.liquidation_discount,
        ),
        Step::LiquidateVault {
            liquidator_account_id,
            liquidatee_account_id,
            debt_coin,
            request_vault,
        } => liquidate::liquidate_vault(
            &state.config,
            &state.debt,
            &mut state.balances,
            &mut state.vaults,
            liquidator_account_id,
            liquidatee_account_id,
            debt_coin,
            request_vault,
            &obs.health,
            obs.total_debt_amount,
            obs.debt_price,
            obs.request_price,
            obs.liquidation_discount,
            obs.lockup,
            crate::types::duplicate_coins(&obs.external_balances),
        ),
        Step::UpdateCoinBalances { account_id, previous_balances } => {
            if !balance_ops::check_coin_denoms_distinct(&obs.external_balances) {
                return Err(ContractError::Duplicates);
            }
            match balance_ops::update_coin_balances(
                &mut state.balances,
                account_id,
                previous_balances,
                &obs.external_balances,
            ) {
                Ok(()) => Ok(Vec::new()),
                Err(e) => Err(e),
            }
        },
        Step::RefundAllCoinBalances { account_id } => Ok(
            balance_ops::refund_coin_balances(
                &mut state.balances,
                account_id,
                &obs.account_owner,
            ),
        ),
        Step::AssertOneVaultPositionOnly { account_id } => {
            match state.vaults.assert_only_one_vault_position(account_id) {
                Ok(()) => Ok(Vec::new()),
                Err(e) => Err(e),
            }
        },
        Step::AssertMaxLtv { account_id: _, prev_health } => {
            match assert_max_ltv(prev_health, &obs.health) {
                Ok(()) => Ok(Vec::new()),
                Err(e) => Err(e),
            }
        },
    }
}

/// A complete, successful run of a deferred-step queue: each step executes
/// as the dispatcher identity against the state its predecessors left, per
/// `callback_post`, and the emitted instructions are concatenated in order.
pub open spec fn steps_run(
    pre: State,
    post: State,
    contract_addr: String,
    steps: Seq<Step>,
    obs: Seq<Observations>,
    out: Seq<Instruction>,
) -> bool
    decreases steps.len(),
{
    if steps.len() == 0 {
        post == pre && out.len() == 0
    } else {
        exists|mid: State, first: Vec<Instruction>|
            {
                &&& #[trigger] callback_post(
                    pre,
                    mid,
                    contract_addr,
                    contract_addr,
                    steps[0],
                    obs[0],
                    Ok(first),
                )
                &&& first@.len() <= out.len()
                &&& out.take(first@.len() as int) == first@
                &&& steps_run(
                    mid,
                    post,
                    contract_addr,
                    steps.drop_first(),
                    obs.drop_first(),
                    out.skip(first@.len() as int),
                )
            }
    }
}

/// A failing run of a deferred-step queue: some step fails with the given
/// error, every step before it having succeeded, and the whole run surfaces
/// that first failure.
pub open spec fn steps_fail(
    pre: State,
    contract_addr: String,
    steps: Seq<Step>,
    obs: Seq<Observations>,
    e: ContractError,
) -> bool
    decreases steps.len(),
{
    &&& steps.len() > 0
    &&& ((exists|post: State|
        #[trigger] callback_post(pre, post, contract_addr, contract_addr, steps[0], obs[0], Err(e)))
        || (exists|mid: State, first: Vec<Instruction>|
            {
                &&& #[trigger] callback_post(
                    pre,
                    mid,
                    contract_addr,
                    contract_addr,
                    steps[0],
                    obs[0],
                    Ok(first),
                )
                &&& steps_fail(mid, contract_addr, steps.drop_first(), obs.drop_first(), e)
            }))
}

/// Extending a successful run by one more successful step keeps it a run.
proof fn lemma_steps_run_snoc(
    pre: State,
    mid: State,
    post: State,
    addr: String,
    steps: Seq<Step>,
    obs: Seq<Observations>,
    out1: Seq<Instruction>,
    step: Step,
    ob: Observations,
    out2: Vec<Instruction>,
)
    requires
        obs.len() == steps.len(),
        steps_run(pre, mid, addr, steps, obs, out1),
        callback_post(mid, post, addr, addr, step, ob, Ok(out2)),
    ensures
        steps_run(pre, post, addr, steps.push(step), obs.push(ob), out1 + out2@),
    decreases steps.len(),
{
    let steps2 = steps.push(step);
    let obs2 = obs.push(ob);
    let out = out1 + out2@;
    if steps.len() == 0 {
        assert(steps2[0] == step);
        assert(obs2[0] == ob);
        assert(out =~= out2@);
        assert(out.take(out2@.len() as int) =~= out2@);
        assert(out.skip(out2@.len() as int) =~= Seq::<Instruction>::empty());
        assert(steps2.drop_first() =~= Seq::<Step>::empty());
        assert(obs2.drop_first() =~= Seq::<Observations>::empty());
        assert(callback_post(pre, post, addr, addr, steps2[0], obs2[0], Ok(out2)));
        assert(steps_run(
            post,
            post,
            addr,
            steps2.drop_first(),
            obs2.drop_first(),
            out.skip(out2@.len() as int),
        ));
    } else {
        let (mid1, first1): (State, Vec<Instruction>) = choose|m: State, f: Vec<Instruction>|
            {
                &&& #[trigger] callback_post(pre, m, addr, addr, steps[0], obs[0], Ok(f))
                &&& f@.len() <= out1.len()
                &&& out1.take(f@.len() as int) == f@
                &&& steps_run(
                    m,
                    mid,
                    addr,
                    steps.drop_first(),
                    obs.drop_first(),
                    out1.skip(f@.len() as int),
                )
            };
        lemma_steps_run_snoc(
            mid1,
            mid,
            post,
            addr,
            steps.drop_first(),
            obs.drop_first(),
            out1.skip(first1@.len() as int),
            step,
            ob,
            out2,
        );
        assert(steps2.drop_first() =~= steps.drop_first().push(step));
        assert(obs2.drop_first() =~= obs.drop_first().push(ob));
        assert(out.skip(first1@.len() as int) =~= out1.skip(first1@.len() as int) + out2@);
        assert(steps2[0] == steps[0] && obs2[0] == obs[0]);
        assert(out.take(first1@.len() as int) =~= out1.take(first1@.len() as int));
        assert(callback_post(pre, mid1, addr, addr, steps2[0], obs2[0], Ok(first1)));
        assert(out.take(first1@.len() as int) == first1@);
    }
}

/// A successful run followed by a failing run of the remaining queue is a
/// failing run of the whole queue.
proof fn lemma_steps_fail_wrap(
    pre: State,
    mid: State,
    addr: String,
    steps: Seq<Step>,
    obs: Seq<Observations>,
    out1: Seq<Instruction>,
    suffix_steps: Seq<Step>,
    suffix_obs: Seq<Observations>,
    e: ContractError,
)
    requires
        obs.len() == steps.len(),
        steps_run(pre, mid, addr, steps, obs, out1),
        steps_fail(mid, addr, suffix_steps, suffix_obs, e),
    ensures
        steps_fail(pre, addr, steps + suffix_steps, obs + suffix_obs, e),
    decreases steps.len(),
{
    if steps.len() == 0 {
        assert(steps + suffix_steps =~= suffix_steps);
        assert(obs + suffix_obs =~= suffix_obs);
    } else {
        let (mid1, first1): (State, Vec<Instruction>) = choose|m: State, f: Vec<Instruction>|
            {
                &&& #[trigger] callback_post(pre, m, addr, addr, steps[0], obs[0], Ok(f))
                &&& f@.len() <= out1.len()
                &&& out1.take(f@.len() as int) == f@
                &&& steps_run(
                    m,
                    mid,
                    addr,
                    steps.drop_first(),
                    obs.drop_first(),
                    out1.skip(f@.len() as int),
                )
            };
        lemma_steps_fail_wrap(
            mid1,
            mid,
            addr,
            steps.drop_first(),
            obs.drop_first(),
            out1.skip(first1@.len() as int),
            suffix_steps,
            suffix_obs,
            e,
        );
        assert((steps + suffix_steps).drop_first() =~= steps.drop_first() + suffix_steps);
        assert((obs + suffix_obs).drop_first() =~= obs.drop_first() + suffix_obs);
        assert((steps + suffix_steps)[0] == steps[0] && (obs + suffix_obs)[0] == obs[0]);
        assert(callback_post(
            pre,
            mid1,
            addr,
            addr,
            (steps + suffix_steps)[0],
            (obs + suffix_obs)[0],
            Ok(first1),
        ));
    }
}

/// Runs a deferred-step queue in order, each step as a self-origin
/// sub-invocation, stopping at the first failure: the host then discards the
/// whole transaction. A completed run is exactly a `steps_run` fold of the
/// queue; a failure surfaces the first failing step's error, per
/// `steps_fail`. A queue that the dispatch pipeline built ends with the two
/// assertion steps, so a run that completes also guarantees the account holds
/// positions in at most one vault and that its health did not regress.
pub fn execute_steps(
    state: &mut State,
    contract_addr: &String,
    steps: &Vec<Step>,
    obs: &Vec<Observations>,
) -> (r: Result<Vec<Instruction>, ContractError>)
    requires
        old(state).wf(),
        obs@.len() == steps@.len(),
    ensures
        final(state).wf(),
        final(state).config == old(state).config,
        r matches Ok(out) ==> steps_run(
            *old(state),
            *final(state),
            *contract_addr,
            steps@,
            obs@,
            out@,
        ),
        r matches Err(e) ==> steps_fail(*old(state), *contract_addr, steps@, obs@, e),
        r is Ok && steps@.len() >= 2 && steps@.last() is AssertMaxLtv ==> (steps@[steps@.len()
            - 2] matches Step::AssertOneVaultPositionOnly { account_id } ==> final(
        state).vaults.position_count_of(account_id@) <= 1),
        r is Ok && steps@.len() >= 1 ==> (steps@.last() matches Step::AssertMaxLtv {
            account_id,
            prev_health,
        } ==> max_ltv_ok(prev_health, obs@[steps@.len() - 1].health)),
{
    let n = steps.len();
    let mut out: Vec<Instruction> = Vec::new();
    let mut k: usize = 0;
    proof {
        assert(steps@.take(0) =~= Seq::<Step>::empty());
        assert(obs@.take(0) =~= Seq::<Observations>::empty());
    }
    while k < n
        invariant
            n == steps@.len(),
            obs@.len() == steps@.len(),
            k <= n,
            state.wf(),
            state.config == old(state).config,
            steps_run(
                *old(state),
                *state,
                *contract_addr,
                steps@.take(k as int),
                obs@.take(k as int),
                out@,
            ),
            k == n - 1 && n >= 2 ==> (steps@[n - 2] matches Step::AssertOneVaultPositionOnly {
                account_id,
            } ==> state.vaults.position_count_of(account_id@) <= 1),
            k == n && n >= 2 && steps@[n - 1] is AssertMaxLtv ==> (steps@[n - 2] matches
                Step::AssertOneVaultPositionOnly { account_id }
                ==> state.vaults.position_count_of(account_id@) <= 1),
            k == n && n >= 1 ==> (steps@[n - 1] matches Step::AssertMaxLtv {
                account_id,
                prev_health,
            } ==> max_ltv_ok(prev_health, obs@[n - 1].health)),
        decreases n - k,
    {
        let ghost prev = *state;
        let ghost out0 = out@;
        let res = execute_callback(state, contract_addr, contract_addr, &steps[k], &obs[k]);
        match res {
            Ok(mut ins) => {
                let ghost insv = ins;
                out.append(&mut ins);
                proof {
                    assert(callback_post(
                        prev,
                        *state,
                        *contract_addr,
                        *contract_addr,
                        steps@[k as int],
                        obs@[k as int],
                        Ok(insv),
                    ));
                    lemma_steps_run_snoc(
                        *old(state),
                        prev,
                        *state,
                        *contract_addr,
                        steps@.take(k as int),
                        obs@.take(k as int),
                        out0,
                        steps@[k as int],
                        obs@[k as int],
                        insv,
                    );
                    assert(steps@.take(k + 1) =~= steps@.take(k as int).push(steps@[k as int]));
                    assert(obs@.take(k + 1) =~= obs@.take(k as int).push(obs@[k as int]));
                }
            },
            Err(e) => {
                proof {
                    assert(callback_post(
                        prev,
                        *state,
                        *contract_addr,
                        *contract_addr,
                        steps@[k as int],
                        obs@[k as int],
                        Err::<Vec<Instruction>, ContractError>(e),
                    ));
                    assert(steps@.skip(k as int)[0] == steps@[k as int]);
                    assert(obs@.skip(k as int)[0] == obs@[k as int]);
                    assert(steps_fail(
                        prev,
                        *contract_addr,
                        steps@.skip(k as int),
                        obs@.skip(k as int),
                        e,
                    ));
                    lemma_steps_fail_wrap(
                        *old(state),
                        prev,
                        *contract_addr,
                        steps@.take(k as int),
                        obs@.take(k as int),
                        out@,
                        steps@.skip(k as int),
                        obs@.skip(k as int),
                        e,
                    );
                    assert(steps@.take(k as int) + steps@.skip(k as int) =~= steps@);
                    assert(obs@.take(k as int) + obs@.skip(k as int) =~= obs@);
                }
                return Err(e);
            },
        }
        k = k + 1;
    }
    proof {
        assert(steps@.take(n as int) =~= steps@);
        assert(obs@.take(n as int) =~= obs@);
    }
    Ok(out)
}

/// A prefix of distinct funds holds no row of a denom that only appears later.
proof fn lemma_funds_sum_absent_on_prefix(s: Seq<Coin>, i: int)
    requires
        balance_ops::coin_denoms_distinct(s),
        0 <= i < s.len(),
    ensures
        funds_sum(s.take(i), s[i].denom@) == 0,
{
    assert forall|j: int| 0 <= j < s.take(i).len() implies s.take(i)[j].denom@ != s[i].denom@ by {}
    lemma_funds_sum_absent(s.take(i), s[i].denom@);
}

} // verus!
