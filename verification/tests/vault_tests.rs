use credit_manager::config::{Config, VaultConfig, VaultConfigEntry};
use credit_manager::types::{Coin, ContractError, Instruction};
use credit_manager::vault::{UpdateType, VaultLedger, VaultPositionUpdate};
use credit_manager::vault_ops::{
    assert_denom_matches_vault_reqs, assert_deposit_is_under_cap, assert_under_max_unlocking_limit,
    enter_vault, exit_vault, exit_vault_unlocked, request_vault_unlock, update_vault_coin_balance,
};

fn coin(denom: &str, amount: u128) -> Coin {
    Coin {
        denom: denom.to_string(),
        amount,
    }
}

fn test_config(max_unlocking: u128) -> Config {
    Config {
        owner: "owner".to_string(),
        account_nft: None,
        red_bank: "red_bank".to_string(),
        oracle: "oracle".to_string(),
        swapper: "swapper".to_string(),
        zapper: "zapper".to_string(),
        max_close_factor: 500_000_000_000_000_000,
        max_unlocking_positions: max_unlocking,
        allowed_coins: vec!["unitA".to_string()],
        vault_configs: vec![VaultConfigEntry {
            addr: "vault1".to_string(),
            config: VaultConfig {
                whitelisted: true,
                deposit_cap: coin("unitA", 1_000_000),
            },
        }],
    }
}

fn lock_into_vault(vaults: &mut VaultLedger, acct: &String, vault: &String, amount: u128) {
    vaults
        .update_vault_position(
            acct,
            vault,
            &VaultPositionUpdate::Locked {
                amount,
                kind: UpdateType::Increment,
            },
        )
        .unwrap();
}

#[test]
fn unlock_requests_stop_at_the_configured_maximum() {
    let config = test_config(1);
    let mut vaults = VaultLedger::new();
    let acct = "acct1".to_string();
    let vault = "vault1".to_string();
    lock_into_vault(&mut vaults, &acct, &vault, 100);

    assert!(assert_under_max_unlocking_limit(&vaults, &config, &acct, &vault).is_ok());
    let instrs = request_vault_unlock(&config, &mut vaults, &acct, &vault, 30).unwrap();
    assert_eq!(
        instrs,
        vec![Instruction::VaultRequestUnlock {
            vault: "vault1".to_string(),
            amount: 30
        }]
    );
    // one lot is open; the (max+1)-th request is rejected
    assert_eq!(
        request_vault_unlock(&config, &mut vaults, &acct, &vault, 30),
        Err(ContractError::ExceedsMaxUnlockingPositions {
            new_amount: 2,
            maximum: 1
        })
    );
    assert_eq!(
        assert_under_max_unlocking_limit(&vaults, &config, &acct, &vault),
        Err(ContractError::ExceedsMaxUnlockingPositions {
            new_amount: 2,
            maximum: 1
        })
    );
}

#[test]
fn unlock_request_needs_whitelisted_vault_and_locked_funds() {
    let config = test_config(2);
    let mut vaults = VaultLedger::new();
    let acct = "acct1".to_string();
    assert_eq!(
        request_vault_unlock(&config, &mut vaults, &acct, &"ghost".to_string(), 30),
        Err(ContractError::NotWhitelisted("ghost".to_string()))
    );
    assert_eq!(
        request_vault_unlock(&config, &mut vaults, &acct, &"vault1".to_string(), 0),
        Err(ContractError::NoAmount)
    );
    assert_eq!(
        request_vault_unlock(&config, &mut vaults, &acct, &"vault1".to_string(), 30),
        Err(ContractError::Underflow)
    );
}

#[test]
fn exit_vault_unlocked_rejects_lockup_free_positions() {
    let mut vaults = VaultLedger::new();
    let acct = "acct1".to_string();
    let vault = "vault1".to_string();
    // a lockup-free vault position holds an Unlocked bucket and no lots
    vaults
        .update_vault_position(
            &acct,
            &vault,
            &VaultPositionUpdate::Unlocked {
                amount: 100,
                kind: UpdateType::Increment,
            },
        )
        .unwrap();
    // no lot exists, so the named lot cannot match
    assert_eq!(
        exit_vault_unlocked(&mut vaults, &acct, &vault, 0, true),
        Err(ContractError::NoPositionMatch)
    );
    // ExitVault is the correct call for that case
    let instrs = exit_vault(&mut vaults, &acct, &vault, 40, None).unwrap();
    assert_eq!(
        instrs,
        vec![Instruction::VaultWithdraw {
            vault: "vault1".to_string(),
            amount: 40,
            force: false
        }]
    );
}

#[test]
fn exit_vault_requires_lockup_free_vault() {
    let mut vaults = VaultLedger::new();
    let acct = "acct1".to_string();
    let vault = "vault1".to_string();
    lock_into_vault(&mut vaults, &acct, &vault, 100);
    assert_eq!(
        exit_vault(&mut vaults, &acct, &vault, 10, Some(86400)),
        Err(ContractError::RequirementsNotMet)
    );
}

#[test]
fn exit_vault_unlocked_withdraws_a_matured_lot() {
    let config = test_config(2);
    let mut vaults = VaultLedger::new();
    let acct = "acct1".to_string();
    let vault = "vault1".to_string();
    lock_into_vault(&mut vaults, &acct, &vault, 100);
    request_vault_unlock(&config, &mut vaults, &acct, &vault, 40).unwrap();

    assert_eq!(
        exit_vault_unlocked(&mut vaults, &acct, &vault, 7, true),
        Err(ContractError::NoPositionMatch)
    );
    assert_eq!(
        exit_vault_unlocked(&mut vaults, &acct, &vault, 0, false),
        Err(ContractError::UnlockNotReady)
    );
    let instrs = exit_vault_unlocked(&mut vaults, &acct, &vault, 0, true).unwrap();
    assert_eq!(
        instrs,
        vec![Instruction::VaultWithdrawUnlocked {
            vault: "vault1".to_string(),
            lot_id: 0
        }]
    );
    assert_eq!(
        exit_vault_unlocked(&mut vaults, &acct, &vault, 0, true),
        Err(ContractError::NoPositionMatch)
    );
}

#[test]
fn vault_balance_growth_lands_in_the_right_bucket() {
    let mut vaults = VaultLedger::new();
    let acct = "acct1".to_string();
    let vault = "vault1".to_string();
    assert_eq!(
        update_vault_coin_balance(&mut vaults, &vault, &acct, 100, 100, None),
        Err(ContractError::NoVaultCoinsReceived)
    );
    update_vault_coin_balance(&mut vaults, &vault, &acct, 100, 150, Some(86400)).unwrap();
    update_vault_coin_balance(&mut vaults, &vault, &acct, 150, 170, None).unwrap();
    let i = vaults.position_index(&acct, &vault).unwrap();
    assert_eq!(vaults.entries[i].amount.locked, 50);
    assert_eq!(vaults.entries[i].amount.unlocked, 20);
    assert_eq!(vaults.entries[i].amount.total(), Ok(70));
}

#[test]
fn enter_vault_checks_and_debits() {
    let config = test_config(2);
    let mut balances = credit_manager::ledger::PairLedger::new();
    let acct = "acct1".to_string();
    let vault = "vault1".to_string();
    balances.set_amount(&acct, &"unitA".to_string(), 500);

    let action_coin = credit_manager::types::ActionCoin {
        denom: "unitA".to_string(),
        amount: credit_manager::types::ActionAmount::Exact(200),
    };
    let instrs = enter_vault(
        &config,
        &mut balances,
        &acct,
        &vault,
        &action_coin,
        &"unitA".to_string(),
        200,     // oracle value of the deposit
        300,     // oracle value of the current vault holding
        1_000,   // oracle value of the cap
        7_000,   // current vault token balance
    )
    .unwrap();
    assert_eq!(balances.get_amount(&acct, &"unitA".to_string()), 300);
    assert_eq!(instrs.len(), 2);
    assert_eq!(
        instrs[0],
        Instruction::VaultDeposit {
            vault: "vault1".to_string(),
            coin: coin("unitA", 200)
        }
    );
    match &instrs[1] {
        Instruction::EnqueueStep(credit_manager::types::Step::UpdateVaultCoinBalance {
            vault: v,
            account_id: a,
            previous_total_balance,
        }) => {
            assert_eq!(v, "vault1");
            assert_eq!(a, "acct1");
            assert_eq!(*previous_total_balance, 7_000);
        }
        other => panic!("unexpected instruction: {:?}", other),
    }
}

#[test]
fn deposit_cap_and_base_token_guards() {
    assert!(assert_denom_matches_vault_reqs(&"unitA".to_string(), &coin("unitA", 5)).is_ok());
    assert_eq!(
        assert_denom_matches_vault_reqs(&"unitA".to_string(), &coin("unitB", 5)),
        Err(ContractError::RequirementsNotMet)
    );
    assert!(assert_deposit_is_under_cap(200, 300, 500).is_ok());
    assert_eq!(
        assert_deposit_is_under_cap(201, 300, 500),
        Err(ContractError::AboveVaultDepositCap {
            new_value: 501,
            maximum: 500
        })
    );
}
