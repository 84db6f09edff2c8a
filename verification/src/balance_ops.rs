use vstd::prelude::*;
use crate::config::Config;
use crate::ledger::PairLedger;
use crate::types::{Coin, ContractError, Instruction};

verus! {

/// The amount a coin list carries for a denom; zero when the denom is absent.
pub open spec fn coin_amount_in(s: Seq<Coin>, d: Seq<char>) -> u128
    decreases s.len(),
{
    if s.len() == 0 {
        0
    } else if s.last().denom@ == d {
        s.last().amount
    } else {
        coin_amount_in(s.drop_last(), d)
    }
}

pub open spec fn coin_denoms_distinct(s: Seq<Coin>) -> bool {
    forall|i: int, j: int| 0 <= i < j < s.len() ==> s[i].denom@ != s[j].denom@
}

pub proof fn lemma_coin_amount_at_index(s: Seq<Coin>, i: int)
    requires
        coin_denoms_distinct(s),
        0 <= i < s.len(),
    ensures
        coin_amount_in(s, s[i].denom@) == s[i].amount,
    decreases s.len(),
{
    if i < s.len() - 1 {
        lemma_coin_amount_at_index(s.drop_last(), i);
    }
}

/// Whether every denom of a coin list is distinct.
pub fn check_coin_denoms_distinct(coins: &Vec<Coin>) -> (r: bool)
    ensures
        r == coin_denoms_distinct(coins@),
{
    let n = coins.len();
    for i in 0..n
        invariant
            n == coins@.len(),
            forall|i2: int, j2: int| 0 <= i2 < j2 < i ==> coins@[i2].denom@ != coins@[j2].denom@,
    {
        for j in 0..i
            invariant
                i < n,
                n == coins@.len(),
                forall|i2: int, j2: int|
                    0 <= i2 < j2 < i ==> coins@[i2].denom@ != coins@[j2].denom@,
                forall|j2: int| 0 <= j2 < j ==> coins@[j2].denom@ != coins@[i as int].denom@,
        {
            if coins[j].denom == coins[i].denom {
                return false;
            }
        }
    }
    true
}

/// Looks a denom up in a coin list; zero when absent.
pub fn coin_amount_of(coins: &Vec<Coin>, denom: &String) -> (r: u128)
    requires
        coin_denoms_distinct(coins@),
    ensures
        r == coin_amount_in(coins@, denom@),
{
    let n = coins.len();
    for i in 0..n
        invariant
            n == coins@.len(),
            coin_denoms_distinct(coins@),
            forall|j: int| 0 <= j < i ==> coins@[j].denom@ != denom@,
    {
        if coins[i].denom == *denom {
            proof {
                lemma_coin_amount_at_index(coins@, i as int);
            }
            return coins[i].amount;
        }
    }
    proof {
        lemma_coin_amount_absent(coins@, denom@);
    }
    0
}

pub proof fn lemma_coin_amount_absent(s: Seq<Coin>, d: Seq<char>)
    requires
        forall|i: int| 0 <= i < s.len() ==> s[i].denom@ != d,
    ensures
        coin_amount_in(s, d) == 0,
    decreases s.len(),
{
    if s.len() > 0 {
        lemma_coin_amount_absent(s.drop_last(), d);
    }
}

/// Everything `withdraw` guarantees, relating the balance ledger before and
/// after the call to its result.
pub open spec fn withdraw_post(
    config: Config,
    pre_bal: PairLedger,
    post_bal: PairLedger,
    account_id: String,
    coin: Coin,
    recipient: String,
    r: Result<Vec<Instruction>, ContractError>,
) -> bool {
    &&& post_bal.wf()
    &&& (r is Err ==> post_bal.entries@ == pre_bal.entries@)
    &&& (coin.amount == 0 ==> r == Err::<Vec<Instruction>, ContractError>(ContractError::NoAmount))
    &&& (coin.amount > 0 && !config.coin_allowed(coin.denom@) ==> (r matches Err(e) && e matches
        ContractError::NotWhitelisted(s) && s@ == coin.denom@))
    &&& (coin.amount > 0 && config.coin_allowed(coin.denom@) && pre_bal.amount_of(
        account_id@,
        coin.denom@,
    ) < coin.amount ==> r == Err::<Vec<Instruction>, ContractError>(ContractError::Underflow))
    &&& (r matches Ok(instrs) ==> {
        &&& coin.amount > 0
        &&& config.coin_allowed(coin.denom@)
        &&& coin.amount <= pre_bal.amount_of(account_id@, coin.denom@)
        &&& post_bal.amount_of(account_id@, coin.denom@) == pre_bal.amount_of(
            account_id@,
            coin.denom@,
        ) - coin.amount
        &&& forall|a2: Seq<char>, d2: Seq<char>|
            !(a2 == account_id@ && d2 == coin.denom@) ==> post_bal.amount_of(a2, d2)
                == pre_bal.amount_of(a2, d2)
        &&& instrs@.len() == 1
        &&& (instrs@[0] matches Instruction::TransferToUser { recipient: rc, coin: c } && rc@
            == recipient@ && c.denom@ == coin.denom@ && c.amount == coin.amount)
    })
}

/// Debits a whitelisted coin from the account and instructs the host to send
/// it to the recipient.
pub fn withdraw(
    config: &Config,
    balances: &mut PairLedger,
    account_id: &String,
    coin: &Coin,
    recipient: &String,
) -> (r: Result<Vec<Instruction>, ContractError>)
    requires
        old(balances).wf(),
    ensures
        withdraw_post(
            *config,
            *old(balances),
            *final(balances),
            *account_id,
            *coin,
            *recipient,
            r,
        ),
{
    if coin.amount == 0 {
        return Err(ContractError::NoAmount);
    }
    match config.assert_coin_is_whitelisted(&coin.denom) {
        Ok(()) => (),
        Err(e) => {
            return Err(e);
        },
    }
    let bal = balances.get_amount(account_id, &coin.denom);
    if bal < coin.amount {
        return Err(ContractError::Underflow);
    }
    balances.set_amount(account_id, &coin.denom, bal - coin.amount);
    let mut instrs: Vec<Instruction> = Vec::new();
    instrs.push(
        Instruction::TransferToUser {
            recipient: recipient.clone(),
            coin: Coin::new(&coin.denom, coin.amount),
        },
    );
    Ok(instrs)
}

/// Credits the account with whatever the protocol's external balances gained
/// since the snapshot was taken: the balance-reconciliation step that settles
/// a vault liquidation.
/// Everything `update_coin_balances` guarantees, relating the balance ledger
/// before and after the call to its result.
pub open spec fn update_coin_balances_post(
    pre_bal: PairLedger,
    post_bal: PairLedger,
    account_id: String,
    previous_balances: Vec<Coin>,
    current_balances: Vec<Coin>,
    r: Result<(), ContractError>,
) -> bool {
    &&& post_bal.wf()
    &&& (r is Err ==> post_bal.entries@ == pre_bal.entries@)
    &&& (!coin_denoms_distinct(previous_balances@) ==> r == Err::<(), ContractError>(
        ContractError::Duplicates,
    ))
    &&& (coin_denoms_distinct(previous_balances@) ==> {
        let ok = forall|i: int|
            0 <= i < previous_balances@.len() ==> pre_bal.amount_of(
                account_id@,
                previous_balances@[i].denom@,
            ) + gained(previous_balances@, current_balances@, i) <= u128::MAX;
        if !ok {
            r == Err::<(), ContractError>(ContractError::Overflow)
        } else {
            &&& r is Ok
            &&& forall|i: int|
                0 <= i < previous_balances@.len() ==> post_bal.amount_of(
                    account_id@,
                    #[trigger] previous_balances@[i].denom@,
                ) == pre_bal.amount_of(account_id@, previous_balances@[i].denom@) + gained(
                    previous_balances@,
                    current_balances@,
                    i,
                )
            &&& forall|a2: Seq<char>, d2: Seq<char>|
                (a2 != account_id@ || (forall|i: int|
                    0 <= i < previous_balances@.len()
                        ==> #[trigger] previous_balances@[i].denom@ != d2)) ==> post_bal.amount_of(
                    a2,
                    d2,
                ) == pre_bal.amount_of(a2, d2)
        }
    })
}

pub fn update_coin_balances(
    balances: &mut PairLedger,
    account_id: &String,
    previous_balances: &Vec<Coin>,
    current_balances: &Vec<Coin>,
) -> (r: Result<(), ContractError>)
    requires
        old(balances).wf(),
        coin_denoms_distinct(current_balances@),
    ensures
        update_coin_balances_post(
            *old(balances),
            *final(balances),
            *account_id,
            *previous_balances,
            *current_balances,
            r,
        ),
{
    if !check_coin_denoms_distinct(previous_balances) {
        return Err(ContractError::Duplicates);
    }
    let n = previous_balances.len();
    for i in 0..n
        invariant
            n == previous_balances@.len(),
            balances.wf(),
            balances.entries@ == old(balances).entries@,
            coin_denoms_distinct(previous_balances@),
            coin_denoms_distinct(current_balances@),
            forall|j: int|
                0 <= j < i ==> old(balances).amount_of(
                    account_id@,
                    #[trigger] previous_balances@[j].denom@,
                ) + gained(previous_balances@, current_balances@, j) <= u128::MAX,
    {
        let prev = previous_balances[i].amount;
        let cur = coin_amount_of(current_balances, &previous_balances[i].denom);
        let credit = if cur > prev {
            cur - prev
        } else {
            0
        };
        let bal = balances.get_amount(account_id, &previous_balances[i].denom);
        proof {
            lemma_coin_amount_at_index(previous_balances@, i as int);
        }
        if credit > u128::MAX - bal {
            proof {
                assert(old(balances).amount_of(account_id@, previous_balances@[i as int].denom@)
                    + gained(previous_balances@, current_balances@, i as int) > u128::MAX);
            }
            return Err(ContractError::Overflow);
        }
    }
    let ghost bal0 = *balances;
    for i in 0..n
        invariant
            n == previous_balances@.len(),
            balances.wf(),
            coin_denoms_distinct(previous_balances@),
            coin_denoms_distinct(current_balances@),
            bal0 == *old(balances),
            forall|j: int|
                0 <= j < n ==> bal0.amount_of(account_id@, #[trigger] previous_balances@[j].denom@)
                    + gained(previous_balances@, current_balances@, j) <= u128::MAX,
            forall|j: int|
                0 <= j < i ==> balances.amount_of(
                    account_id@,
                    #[trigger] previous_balances@[j].denom@,
                ) == bal0.amount_of(account_id@, previous_balances@[j].denom@) + gained(
                    previous_balances@,
                    current_balances@,
                    j,
                ),
            forall|a2: Seq<char>, d2: Seq<char>|
                (a2 != account_id@ || (forall|j: int|
                    0 <= j < i ==> #[trigger] previous_balances@[j].denom@ != d2))
                    ==> balances.amount_of(a2, d2) == bal0.amount_of(a2, d2),
    {
        let prev = previous_balances[i].amount;
        let cur = coin_amount_of(current_balances, &previous_balances[i].denom);
        let credit = if cur > prev {
            cur - prev
        } else {
            0
        };
        let bal = balances.get_amount(account_id, &previous_balances[i].denom);
        proof {
            lemma_coin_amount_at_index(previous_balances@, i as int);
            assert(bal == bal0.amount_of(account_id@, previous_balances@[i as int].denom@));
        }
        balances.set_amount(account_id, &previous_balances[i].denom, bal + credit);
    }
    Ok(())
}

/// What the account gains for the denom of the i-th snapshot coin: the growth
/// of the external balance since the snapshot, and nothing when it shrank.
pub open spec fn gained(previous: Seq<Coin>, current: Seq<Coin>, i: int) -> u128 {
    let c = coin_amount_in(current, previous[i].denom@);
    if c > previous[i].amount {
        (c - previous[i].amount) as u128
    } else {
        0
    }
}

/// Empties every coin balance of the account and instructs the host to send
/// each coin to the account's owner.
/// Everything `refund_coin_balances` guarantees, relating the balance ledger
/// before and after the call to its result.
pub open spec fn refund_post(
    pre_bal: PairLedger,
    post_bal: PairLedger,
    account_id: String,
    owner: String,
    instrs: Vec<Instruction>,
) -> bool {
    &&& post_bal.wf()
    &&& forall|d: Seq<char>| post_bal.amount_of(account_id@, d) == 0
    &&& forall|a2: Seq<char>, d2: Seq<char>|
        a2 != account_id@ ==> post_bal.amount_of(a2, d2) == pre_bal.amount_of(a2, d2)
    &&& instrs@.len() == pre_bal.coins_of(account_id@).len()
    &&& forall|k: int|
        0 <= k < instrs@.len() ==> (#[trigger] instrs@[k] matches Instruction::TransferToUser {
            recipient: rc,
            coin: c,
        } && rc@ == owner@ && c.denom@ == pre_bal.coins_of(account_id@)[k].denom@ && c.amount
            == pre_bal.coins_of(account_id@)[k].amount)
}

pub fn refund_coin_balances(
    balances: &mut PairLedger,
    account_id: &String,
    owner: &String,
) -> (instrs: Vec<Instruction>)
    requires
        old(balances).wf(),
    ensures
        refund_post(*old(balances), *final(balances), *account_id, *owner, instrs),
{
    let coins = balances.drain_account(account_id);
    let mut instrs: Vec<Instruction> = Vec::new();
    let n = coins.len();
    let ghost coins0 = coins@;
    for k in 0..n
        invariant
            n == coins0.len(),
            coins@ == coins0,
            instrs@.len() == k,
            forall|j: int|
                0 <= j < k ==> (#[trigger] instrs@[j] matches Instruction::TransferToUser {
                    recipient: rc,
                    coin: c,
                } && rc@ == owner@ && c.denom@ == coins0[j].denom@ && c.amount == coins0[j].amount),
    {
        instrs.push(
            Instruction::TransferToUser {
                recipient: owner.clone(),
                coin: Coin::new(&coins[k].denom, coins[k].amount),
            },
        );
    }
    instrs
}

} // verus!
