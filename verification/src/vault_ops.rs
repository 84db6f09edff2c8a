use vstd::prelude::*;
use crate::config::Config;
use crate::ledger::PairLedger;
use crate::types::{ActionAmount, ActionCoin, Coin, ContractError, Instruction, Step};
use crate::vault::{UpdateType, VaultLedger, VaultPositionUpdate};

verus! {

/// The amount an action coin resolves to: the exact figure, or the account's
/// whole balance of the denom.
pub open spec fn resolved_amount(
    balances: PairLedger,
    a: Seq<char>,
    coin: ActionCoin,
) -> u128 {
    match coin.amount {
        ActionAmount::Exact(x) => x,
        ActionAmount::AccountBalance => balances.amount_of(a, coin.denom@),
    }
}

/// Rejects a coin whose denom is not the vault's base token.
pub fn assert_denom_matches_vault_reqs(base_token: &String, coin: &Coin) -> (r: Result<
    (),
    ContractError,
>)
    ensures
        r is Ok <==> base_token@ == coin.denom@,
        r is Err ==> r == Err::<(), ContractError>(ContractError::RequirementsNotMet),
{
    if *base_token == coin.denom {
        Ok(())
    } else {
        Err(ContractError::RequirementsNotMet)
    }
}

/// Rejects a deposit that would push the vault's total value above its
/// configured cap. All three figures are oracle valuations.
pub fn assert_deposit_is_under_cap(
    deposit_value: u128,
    vault_balance_value: u128,
    deposit_cap_value: u128,
) -> (r: Result<(), ContractError>)
    ensures
        r is Ok <==> vault_balance_value + deposit_value <= u128::MAX && vault_balance_value
            + deposit_value <= deposit_cap_value,
        vault_balance_value + deposit_value > u128::MAX ==> r == Err::<(), ContractError>(
            ContractError::Overflow,
        ),
        vault_balance_value + deposit_value <= u128::MAX && vault_balance_value + deposit_value
            > deposit_cap_value ==> r == Err::<(), ContractError>(
            ContractError::AboveVaultDepositCap {
                new_value: (vault_balance_value + deposit_value) as u128,
                maximum: deposit_cap_value,
            },
        ),
{
    if deposit_value > u128::MAX - vault_balance_value {
        return Err(ContractError::Overflow);
    }
    let new_total = vault_balance_value + deposit_value;
    if new_total > deposit_cap_value {
        return Err(
            ContractError::AboveVaultDepositCap { new_value: new_total, maximum: deposit_cap_value },
        );
    }
    Ok(())
}

/// Rejects a request that would push a position past the configured maximum
/// number of open unlocking lots.
pub fn assert_under_max_unlocking_limit(
    vaults: &VaultLedger,
    config: &Config,
    account_id: &String,
    vault_addr: &String,
) -> (r: Result<(), ContractError>)
    requires
        vaults.wf(),
    ensures
        r is Ok <==> vaults.lots_of(account_id@, vault_addr@).len() + 1
            <= config.max_unlocking_positions,
        r is Err ==> r == Err::<(), ContractError>(
            ContractError::ExceedsMaxUnlockingPositions {
                new_amount: (vaults.lots_of(account_id@, vault_addr@).len() + 1) as u128,
                maximum: config.max_unlocking_positions,
            },
        ),
{
    let new_amount: u128 = match vaults.position_index(account_id, vault_addr) {
        Some(i) => (vaults.entries[i].amount.unlocking.len() as u128) + 1,
        None => 1,
    };
    if new_amount > config.max_unlocking_positions {
        Err(
            ContractError::ExceedsMaxUnlockingPositions {
                new_amount,
                maximum: config.max_unlocking_positions,
            },
        )
    } else {
        Ok(())
    }
}

/// Everything `enter_vault` guarantees, relating the balance ledger before
/// and after the call to its result: each rejection is pinned to its error,
/// in check order.
pub open spec fn enter_vault_post(
    config: Config,
    pre_bal: PairLedger,
    post_bal: PairLedger,
    account_id: String,
    vault_addr: String,
    coin: ActionCoin,
    base_token: String,
    deposit_value: u128,
    vault_balance_value: u128,
    deposit_cap_value: u128,
    current_vault_balance: u128,
    r: Result<Vec<Instruction>, ContractError>,
) -> bool {
    let amount = resolved_amount(pre_bal, account_id@, coin);
    &&& post_bal.wf()
    &&& (r is Err ==> post_bal.entries@ == pre_bal.entries@)
    &&& (amount == 0 ==> r == Err::<Vec<Instruction>, ContractError>(ContractError::NoAmount))
    &&& (amount > 0 && !config.coin_allowed(coin.denom@) ==> (r matches Err(e) && e matches
        ContractError::NotWhitelisted(d) && d@ == coin.denom@))
    &&& (amount > 0 && config.coin_allowed(coin.denom@) && !config.vault_allowed(vault_addr@)
        ==> (r matches Err(e) && e matches ContractError::NotWhitelisted(v) && v@ == vault_addr@))
    &&& (amount > 0 && config.coin_allowed(coin.denom@) && config.vault_allowed(vault_addr@)
        && base_token@ != coin.denom@ ==> r == Err::<Vec<Instruction>, ContractError>(
        ContractError::RequirementsNotMet,
    ))
    &&& (amount > 0 && config.coin_allowed(coin.denom@) && config.vault_allowed(vault_addr@)
        && base_token@ == coin.denom@ && vault_balance_value + deposit_value > u128::MAX ==> r
        == Err::<Vec<Instruction>, ContractError>(ContractError::Overflow))
    &&& (amount > 0 && config.coin_allowed(coin.denom@) && config.vault_allowed(vault_addr@)
        && base_token@ == coin.denom@ && vault_balance_value + deposit_value <= u128::MAX
        && vault_balance_value + deposit_value > deposit_cap_value ==> r == Err::<
        Vec<Instruction>,
        ContractError,
    >(
        ContractError::AboveVaultDepositCap {
            new_value: (vault_balance_value + deposit_value) as u128,
            maximum: deposit_cap_value,
        },
    ))
    &&& (amount > 0 && config.coin_allowed(coin.denom@) && config.vault_allowed(vault_addr@)
        && base_token@ == coin.denom@ && vault_balance_value + deposit_value <= u128::MAX
        && vault_balance_value + deposit_value <= deposit_cap_value && amount > pre_bal.amount_of(
        account_id@,
        coin.denom@,
    ) ==> r == Err::<Vec<Instruction>, ContractError>(ContractError::Underflow))
    &&& (r is Ok <==> (amount > 0 && config.coin_allowed(coin.denom@) && config.vault_allowed(
        vault_addr@,
    ) && base_token@ == coin.denom@ && vault_balance_value + deposit_value <= u128::MAX
        && vault_balance_value + deposit_value <= deposit_cap_value && amount <= pre_bal.amount_of(
        account_id@,
        coin.denom@,
    )))
    &&& (r matches Ok(instrs) ==> {
        &&& post_bal.amount_of(account_id@, coin.denom@) == pre_bal.amount_of(
            account_id@,
            coin.denom@,
        ) - amount
        &&& forall|a2: Seq<char>, d2: Seq<char>|
            !(a2 == account_id@ && d2 == coin.denom@) ==> post_bal.amount_of(a2, d2)
                == pre_bal.amount_of(a2, d2)
        &&& instrs@.len() == 2
        &&& (instrs@[0] matches Instruction::VaultDeposit { vault: v, coin: c } && v@
            == vault_addr@ && c.denom@ == coin.denom@ && c.amount == amount)
        &&& (instrs@[1] matches Instruction::EnqueueStep(s) && s matches
            Step::UpdateVaultCoinBalance {
                vault: v2,
                account_id: a2,
                previous_total_balance: p,
            } && v2@ == vault_addr@ && a2@ == account_id@ && p == current_vault_balance)
    })
}

/// Checks a vault entry and debits the deposited coin; the deposit itself and
/// the follow-up balance reconciliation run as host work, so the handler
/// hands back a deposit instruction and the reconciliation step primed with
/// the vault balance seen now.
pub fn enter_vault(
    config: &Config,
    balances: &mut PairLedger,
    account_id: &String,
    vault_addr: &String,
    coin: &ActionCoin,
    base_token: &String,
    deposit_value: u128,
    vault_balance_value: u128,
    deposit_cap_value: u128,
    current_vault_balance: u128,
) -> (r: Result<Vec<Instruction>, ContractError>)
    requires
        old(balances).wf(),
    ensures
        enter_vault_post(
            *config,
            *old(balances),
            *final(balances),
            *account_id,
            *vault_addr,
            *coin,
            *base_token,
            deposit_value,
            vault_balance_value,
            deposit_cap_value,
            current_vault_balance,
            r,
        ),
{
    let amount = match &coin.amount {
        ActionAmount::Exact(x) => *x,
        ActionAmount::AccountBalance => balances.get_amount(account_id, &coin.denom),
    };
    if amount == 0 {
        return Err(ContractError::NoAmount);
    }
    match config.assert_coin_is_whitelisted(&coin.denom) {
        Ok(()) => (),
        Err(e) => {
            return Err(e);
        },
    }
    match config.assert_vault_is_whitelisted(vault_addr) {
        Ok(()) => (),
        Err(e) => {
            return Err(e);
        },
    }
    let coin_to_enter = Coin::new(&coin.denom, amount);
    match assert_denom_matches_vault_reqs(base_token, &coin_to_enter) {
        Ok(()) => (),
        Err(e) => {
            return Err(e);
        },
    }
    match assert_deposit_is_under_cap(deposit_value, vault_balance_value, deposit_cap_value) {
        Ok(()) => (),
        Err(e) => {
            return Err(e);
        },
    }
    let bal = balances.get_amount(account_id, &coin.denom);
    if bal < amount {
        return Err(ContractError::Underflow);
    }
    balances.set_amount(account_id, &coin.denom, bal - amount);
    let mut instrs: Vec<Instruction> = Vec::new();
    instrs.push(Instruction::VaultDeposit { vault: vault_addr.clone(), coin: coin_to_enter });
    instrs.push(
        Instruction::EnqueueStep(
            Step::UpdateVaultCoinBalance {
                vault: vault_addr.clone(),
                account_id: account_id.clone(),
                previous_total_balance: current_vault_balance,
            },
        ),
    );
    Ok(instrs)
}

/// Credits the vault tokens a settled deposit brought in: the growth of the
/// protocol's vault balance lands in the Locked bucket when the vault has a
/// lockup, else in the Unlocked bucket.
/// Everything `update_vault_coin_balance` guarantees, relating the vault
/// ledger before and after the call to its result.
pub open spec fn update_vault_coin_balance_post(
    pre_v: VaultLedger,
    post_v: VaultLedger,
    vault_addr: String,
    account_id: String,
    previous_total_balance: u128,
    current_balance: u128,
    lockup: Option<u64>,
    r: Result<(), ContractError>,
) -> bool {
    &&& post_v.wf()
    &&& (r is Err ==> post_v.entries@ == pre_v.entries@)
    &&& (previous_total_balance >= current_balance ==> r == Err::<(), ContractError>(
        ContractError::NoVaultCoinsReceived,
    ))
    &&& (previous_total_balance < current_balance ==> {
        let diff = (current_balance - previous_total_balance) as u128;
        let up = if lockup is Some {
            pre_v.locked_of(account_id@, vault_addr@)
        } else {
            pre_v.unlocked_of(account_id@, vault_addr@)
        };
        if up + diff > u128::MAX {
            r == Err::<(), ContractError>(ContractError::Overflow)
        } else {
            &&& r is Ok
            &&& lockup is Some ==> post_v.locked_of(account_id@, vault_addr@) == up + diff
                && post_v.unlocked_of(account_id@, vault_addr@) == pre_v.unlocked_of(
                account_id@,
                vault_addr@,
            )
            &&& lockup is None ==> post_v.unlocked_of(account_id@, vault_addr@) == up + diff
                && post_v.locked_of(account_id@, vault_addr@) == pre_v.locked_of(
                account_id@,
                vault_addr@,
            )
            &&& post_v.lots_of(account_id@, vault_addr@) == pre_v.lots_of(account_id@, vault_addr@)
            &&& forall|a2: Seq<char>, v2: Seq<char>|
                !(a2 == account_id@ && v2 == vault_addr@) ==> post_v.view_of(a2, v2)
                    == pre_v.view_of(a2, v2)
        }
    })
}

pub fn update_vault_coin_balance(
    vaults: &mut VaultLedger,
    vault_addr: &String,
    account_id: &String,
    previous_total_balance: u128,
    current_balance: u128,
    lockup: Option<u64>,
) -> (r: Result<(), ContractError>)
    requires
        old(vaults).wf(),
    ensures
        update_vault_coin_balance_post(
            *old(vaults),
            *final(vaults),
            *vault_addr,
            *account_id,
            previous_total_balance,
            current_balance,
            lockup,
            r,
        ),
{
    if previous_total_balance >= current_balance {
        return Err(ContractError::NoVaultCoinsReceived);
    }
    let diff = current_balance - previous_total_balance;
    let update = match lockup {
        Some(_) => VaultPositionUpdate::Locked { amount: diff, kind: UpdateType::Increment },
        None => VaultPositionUpdate::Unlocked { amount: diff, kind: UpdateType::Increment },
    };
    vaults.update_vault_position(account_id, vault_addr, &update)
}

/// Opens a fresh unlocking lot for the requested amount after the whitelist
/// and lot-count checks, and asks the vault to start the unlock.
/// Everything `request_vault_unlock` guarantees, relating the vault ledger
/// before and after the call to its result.
pub open spec fn request_vault_unlock_post(
    config: Config,
    pre_v: VaultLedger,
    post_v: VaultLedger,
    account_id: String,
    vault_addr: String,
    amount: u128,
    r: Result<Vec<Instruction>, ContractError>,
) -> bool {
    &&& post_v.wf()
    &&& (r is Err ==> post_v.entries@ == pre_v.entries@)
    &&& (!config.vault_allowed(vault_addr@) ==> (r matches Err(e) && e matches
        ContractError::NotWhitelisted(s) && s@ == vault_addr@))
    &&& (config.vault_allowed(vault_addr@) && amount == 0 ==> r == Err::<
        Vec<Instruction>,
        ContractError,
    >(ContractError::NoAmount))
    &&& (config.vault_allowed(vault_addr@) && amount > 0 && pre_v.lots_of(
        account_id@,
        vault_addr@,
    ).len() + 1 > config.max_unlocking_positions ==> r == Err::<Vec<Instruction>, ContractError>(
        ContractError::ExceedsMaxUnlockingPositions {
            new_amount: (pre_v.lots_of(account_id@, vault_addr@).len() + 1) as u128,
            maximum: config.max_unlocking_positions,
        },
    ))
    &&& (config.vault_allowed(vault_addr@) && amount > 0 && pre_v.lots_of(
        account_id@,
        vault_addr@,
    ).len() + 1 <= config.max_unlocking_positions && amount > pre_v.locked_of(
        account_id@,
        vault_addr@,
    ) ==> r == Err::<Vec<Instruction>, ContractError>(ContractError::Underflow))
    &&& (r matches Ok(instrs) ==> {
        let id = pre_v.next_lot_id_of(account_id@, vault_addr@);
        &&& amount > 0
        &&& config.vault_allowed(vault_addr@)
        &&& amount <= pre_v.locked_of(account_id@, vault_addr@)
        &&& post_v.locked_of(account_id@, vault_addr@) == pre_v.locked_of(
            account_id@,
            vault_addr@,
        ) - amount
        &&& post_v.unlocked_of(account_id@, vault_addr@) == pre_v.unlocked_of(
            account_id@,
            vault_addr@,
        )
        &&& post_v.lots_of(account_id@, vault_addr@) == pre_v.lots_of(
            account_id@,
            vault_addr@,
        ).push(crate::vault::UnlockingLot { id, amount })
        &&& post_v.lots_of(account_id@, vault_addr@).len() <= config.max_unlocking_positions
        &&& forall|a2: Seq<char>, v2: Seq<char>|
            !(a2 == account_id@ && v2 == vault_addr@) ==> post_v.view_of(a2, v2) == pre_v.view_of(
                a2,
                v2,
            )
        &&& instrs@.len() == 1
        &&& (instrs@[0] matches Instruction::VaultRequestUnlock { vault: v, amount: x } && v@
            == vault_addr@ && x == amount)
    })
}

pub fn request_vault_unlock(
    config: &Config,
    vaults: &mut VaultLedger,
    account_id: &String,
    vault_addr: &String,
    amount: u128,
) -> (r: Result<Vec<Instruction>, ContractError>)
    requires
        old(vaults).wf(),
    ensures
        request_vault_unlock_post(
            *config,
            *old(vaults),
            *final(vaults),
            *account_id,
            *vault_addr,
            amount,
            r,
        ),
{
    match config.assert_vault_is_whitelisted(vault_addr) {
        Ok(()) => (),
        Err(e) => {
            return Err(e);
        },
    }
    match vaults.request_unlock(account_id, vault_addr, amount, config.max_unlocking_positions) {
        Ok(_id) => {
            let mut instrs: Vec<Instruction> = Vec::new();
            instrs.push(Instruction::VaultRequestUnlock { vault: vault_addr.clone(), amount });
            Ok(instrs)
        },
        Err(e) => Err(e),
    }
}

/// Withdraws from the Unlocked bucket of a lockup-free vault. A vault with a
/// lockup must go through the unlock flow instead.
/// Everything `exit_vault` guarantees, relating the vault ledger before and
/// after the call to its result.
pub open spec fn exit_vault_post(
    pre_v: VaultLedger,
    post_v: VaultLedger,
    account_id: String,
    vault_addr: String,
    amount: u128,
    lockup: Option<u64>,
    r: Result<Vec<Instruction>, ContractError>,
) -> bool {
    &&& post_v.wf()
    &&& (r is Err ==> post_v.entries@ == pre_v.entries@)
    &&& (lockup is Some ==> r == Err::<Vec<Instruction>, ContractError>(
        ContractError::RequirementsNotMet,
    ))
    &&& (lockup is None && amount > pre_v.unlocked_of(account_id@, vault_addr@) ==> r == Err::<
        Vec<Instruction>,
        ContractError,
    >(ContractError::Underflow))
    &&& (r is Ok <==> lockup is None && amount <= pre_v.unlocked_of(account_id@, vault_addr@))
    &&& (r matches Ok(instrs) ==> {
        &&& post_v.unlocked_of(account_id@, vault_addr@) == pre_v.unlocked_of(
            account_id@,
            vault_addr@,
        ) - amount
        &&& post_v.locked_of(account_id@, vault_addr@) == pre_v.locked_of(account_id@, vault_addr@)
        &&& post_v.lots_of(account_id@, vault_addr@) == pre_v.lots_of(account_id@, vault_addr@)
        &&& forall|a2: Seq<char>, v2: Seq<char>|
            !(a2 == account_id@ && v2 == vault_addr@) ==> post_v.view_of(a2, v2) == pre_v.view_of(
                a2,
                v2,
            )
        &&& instrs@.len() == 1
        &&& (instrs@[0] matches Instruction::VaultWithdraw { vault: v, amount: x, force } && v@
            == vault_addr@ && x == amount && force == false)
    })
}

pub fn exit_vault(
    vaults: &mut VaultLedger,
    account_id: &String,
    vault_addr: &String,
    amount: u128,
    lockup: Option<u64>,
) -> (r: Result<Vec<Instruction>, ContractError>)
    requires
        old(vaults).wf(),
    ensures
        exit_vault_post(
            *old(vaults),
            *final(vaults),
            *account_id,
            *vault_addr,
            amount,
            lockup,
            r,
        ),
{
    if lockup.is_some() {
        return Err(ContractError::RequirementsNotMet);
    }
    let update = VaultPositionUpdate::Unlocked { amount, kind: UpdateType::Decrement };
    match vaults.update_vault_position(account_id, vault_addr, &update) {
        Ok(()) => (),
        Err(e) => {
            return Err(e);
        },
    }
    let mut instrs: Vec<Instruction> = Vec::new();
    instrs.push(Instruction::VaultWithdraw { vault: vault_addr.clone(), amount, force: false });
    Ok(instrs)
}

/// Withdraws one matured unlocking lot in full. A position without such a
/// lot — in particular any position in a lockup-free vault — is rejected.
/// Everything `exit_vault_unlocked` guarantees, relating the vault ledger
/// before and after the call to its result.
pub open spec fn exit_vault_unlocked_post(
    pre_v: VaultLedger,
    post_v: VaultLedger,
    account_id: String,
    vault_addr: String,
    position_id: u64,
    matured: bool,
    r: Result<Vec<Instruction>, ContractError>,
) -> bool {
    &&& post_v.wf()
    &&& (r is Err ==> post_v.entries@ == pre_v.entries@)
    &&& (!pre_v.has_position(account_id@, vault_addr@) ==> r == Err::<
        Vec<Instruction>,
        ContractError,
    >(ContractError::NoPosition))
    &&& (pre_v.has_position(account_id@, vault_addr@) && crate::vault::lot_index_of(
        pre_v.lots_of(account_id@, vault_addr@),
        position_id,
    ) < 0 ==> r == Err::<Vec<Instruction>, ContractError>(ContractError::NoPositionMatch))
    &&& (pre_v.has_position(account_id@, vault_addr@) && crate::vault::lot_index_of(
        pre_v.lots_of(account_id@, vault_addr@),
        position_id,
    ) >= 0 && !matured ==> r == Err::<Vec<Instruction>, ContractError>(
        ContractError::UnlockNotReady,
    ))
    &&& (r matches Ok(instrs) ==> {
        let lots = pre_v.lots_of(account_id@, vault_addr@);
        let li = crate::vault::lot_index_of(lots, position_id);
        &&& matured
        &&& li >= 0
        &&& post_v.lots_of(account_id@, vault_addr@) == lots.remove(li)
        &&& post_v.unlocked_of(account_id@, vault_addr@) == pre_v.unlocked_of(
            account_id@,
            vault_addr@,
        )
        &&& post_v.locked_of(account_id@, vault_addr@) == pre_v.locked_of(account_id@, vault_addr@)
        &&& forall|a2: Seq<char>, v2: Seq<char>|
            !(a2 == account_id@ && v2 == vault_addr@) ==> post_v.view_of(a2, v2) == pre_v.view_of(
                a2,
                v2,
            )
        &&& instrs@.len() == 1
        &&& (instrs@[0] matches Instruction::VaultWithdrawUnlocked { vault: v, lot_id } && v@
            == vault_addr@ && lot_id == position_id)
    })
}

pub fn exit_vault_unlocked(
    vaults: &mut VaultLedger,
    account_id: &String,
    vault_addr: &String,
    position_id: u64,
    matured: bool,
) -> (r: Result<Vec<Instruction>, ContractError>)
    requires
        old(vaults).wf(),
    ensures
        exit_vault_unlocked_post(
            *old(vaults),
            *final(vaults),
            *account_id,
            *vault_addr,
            position_id,
            matured,
            r,
        ),
{
    let i = match vaults.position_index(account_id, vault_addr) {
        Some(i) => i,
        None => {
            return Err(ContractError::NoPosition);
        },
    };
    let lot_exists = match vaults.entries[i].amount.find_lot(position_id) {
        Some(_) => true,
        None => false,
    };
    if !lot_exists {
        return Err(ContractError::NoPositionMatch);
    }
    if !matured {
        return Err(ContractError::UnlockNotReady);
    }
    match vaults.remove_lot(account_id, vault_addr, position_id) {
        Ok(_amount) => {
            let mut instrs: Vec<Instruction> = Vec::new();
            instrs.push(
                Instruction::VaultWithdrawUnlocked {
                    vault: vault_addr.clone(),
                    lot_id: position_id,
                },
            );
            Ok(instrs)
        },
        Err(e) => Err(e),
    }
}

} // verus!
