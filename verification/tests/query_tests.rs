use credit_manager::config::{Config, ConfigUpdates, update_config, VaultConfig, VaultConfigEntry};
use credit_manager::debt::{borrow, DebtLedger};
use credit_manager::ledger::PairLedger;
use credit_manager::math::DECIMAL_ONE;
use credit_manager::query::{
    query_all_coin_balances, query_all_debt_shares, query_all_total_debt_shares,
    query_all_vault_positions, query_allowed_coins, query_coin_balances, query_config,
    query_positions, query_total_debt_shares, query_vault_positions, query_vaults_info,
};
use credit_manager::state::State;
use credit_manager::types::{Coin, ContractError};
use credit_manager::vault::{UpdateType, VaultLedger, VaultPositionUpdate};

fn coin(denom: &str, amount: u128) -> Coin {
    Coin {
        denom: denom.to_string(),
        amount,
    }
}

fn test_config() -> Config {
    Config {
        owner: "owner".to_string(),
        account_nft: None,
        red_bank: "red_bank".to_string(),
        oracle: "oracle".to_string(),
        swapper: "swapper".to_string(),
        zapper: "zapper".to_string(),
        max_close_factor: DECIMAL_ONE / 2,
        max_unlocking_positions: 5,
        allowed_coins: vec![
            "unitA".to_string(),
            "unitB".to_string(),
            "unitC".to_string(),
        ],
        vault_configs: vec![VaultConfigEntry {
            addr: "vault1".to_string(),
            config: VaultConfig {
                whitelisted: true,
                deposit_cap: coin("unitA", 1_000_000),
            },
        }],
    }
}

#[test]
fn config_snapshot_reflects_the_configuration() {
    let config = test_config();
    let r = query_config(&config);
    assert_eq!(r.owner, "owner");
    assert_eq!(r.red_bank, "red_bank");
    assert_eq!(r.oracle, "oracle");
    assert_eq!(r.max_close_factor, DECIMAL_ONE / 2);
    assert_eq!(r.max_unlocking_positions, 5);
    assert_eq!(r.account_nft, None);
}

#[test]
fn coin_balances_list_in_ledger_order() {
    let mut balances = PairLedger::new();
    let acct = "acct1".to_string();
    balances.set_amount(&acct, &"unitA".to_string(), 100);
    balances.set_amount(&"acct2".to_string(), &"unitA".to_string(), 7);
    balances.set_amount(&acct, &"unitB".to_string(), 30);
    let r = query_coin_balances(&balances, &acct);
    assert_eq!(r, vec![coin("unitA", 100), coin("unitB", 30)]);

    let page = query_all_coin_balances(&balances, None, None);
    assert_eq!(page.len(), 3);
    assert_eq!(page[0].account_id, "acct1");
    assert_eq!(page[0].denom, "unitA");
    assert_eq!(page[0].amount, 100);

    // the cursor names the last-seen key
    let page = query_all_coin_balances(
        &balances,
        Some(("acct1".to_string(), "unitA".to_string())),
        None,
    );
    assert_eq!(page.len(), 2);
    assert_eq!(page[0].account_id, "acct2");

    // the limit caps the page
    let page = query_all_coin_balances(&balances, None, Some(1));
    assert_eq!(page.len(), 1);
}

#[test]
fn debt_projections_convert_through_the_pool() {
    let config = test_config();
    let mut debt = DebtLedger::new();
    let mut balances = PairLedger::new();
    let acct = "acct1".to_string();
    borrow(&config, &mut debt, &mut balances, &acct, &coin("unitB", 100), 0).unwrap();

    let t = query_total_debt_shares(&debt, &"unitB".to_string()).unwrap();
    assert_eq!(t.denom, "unitB");
    assert_eq!(t.shares, 100);
    // a denom no shares were ever issued for has no row
    assert_eq!(
        query_total_debt_shares(&debt, &"ujake".to_string()),
        Err(ContractError::NoDebt)
    );

    let all = query_all_total_debt_shares(&debt, None, None);
    assert_eq!(all.len(), 1);
    assert_eq!(all[0].shares, 100);

    let shares_page = query_all_debt_shares(&debt, None, None);
    assert_eq!(shares_page.len(), 1);
    assert_eq!(shares_page[0].account_id, "acct1");
    assert_eq!(shares_page[0].shares, 100);

    let state = State {
        config: test_config(),
        balances,
        debt,
        vaults: VaultLedger::new(),
    };
    // the pool reports 130 outstanding: the account owes all of it
    let positions = query_positions(&state, &acct, &vec![coin("unitB", 130)]);
    assert_eq!(positions.account_id, "acct1");
    assert_eq!(positions.debts.len(), 1);
    assert_eq!(positions.debts[0].denom, "unitB");
    assert_eq!(positions.debts[0].shares, 100);
    assert_eq!(positions.debts[0].amount, 130);
    assert_eq!(positions.deposits, vec![coin("unitB", 100)]);
    assert_eq!(positions.vaults.len(), 0);
}

#[test]
fn vault_position_projections() {
    let mut vaults = VaultLedger::new();
    let acct = "acct1".to_string();
    vaults
        .update_vault_position(
            &acct,
            &"vault1".to_string(),
            &VaultPositionUpdate::Locked {
                amount: 60,
                kind: UpdateType::Increment,
            },
        )
        .unwrap();
    let r = query_vault_positions(&vaults, &acct);
    assert_eq!(r.len(), 1);
    assert_eq!(r[0].vault, "vault1");
    assert_eq!(r[0].amount.locked, 60);

    let page = query_all_vault_positions(&vaults, None, None);
    assert_eq!(page.len(), 1);
    assert_eq!(page[0].account_id, "acct1");
    assert_eq!(page[0].position.vault, "vault1");
    assert_eq!(page[0].position.amount.locked, 60);
}

#[test]
fn whitelist_and_vault_info_pages() {
    let config = test_config();
    let r = query_allowed_coins(&config, None, Some(2));
    assert_eq!(r, vec!["unitA".to_string(), "unitB".to_string()]);
    let r = query_allowed_coins(&config, Some("unitB".to_string()), None);
    assert_eq!(r, vec!["unitC".to_string()]);

    let infos = query_vaults_info(&config, None, None);
    assert_eq!(infos.len(), 1);
    assert_eq!(infos[0].vault, "vault1");
    assert!(infos[0].config.whitelisted);
    assert_eq!(infos[0].config.deposit_cap, coin("unitA", 1_000_000));
}

#[test]
fn config_updates_are_owner_gated_and_validated() {
    let mut config = test_config();
    let no_updates = || ConfigUpdates {
        account_nft: None,
        allowed_coins: None,
        vault_configs: None,
        oracle: None,
        swapper: None,
        zapper: None,
        max_close_factor: None,
        max_unlocking_positions: None,
    };
    assert_eq!(
        update_config(&mut config, &"mallory".to_string(), no_updates()),
        Err(ContractError::NotOwner)
    );
    let mut u = no_updates();
    u.max_close_factor = Some(DECIMAL_ONE + 1);
    assert_eq!(
        update_config(&mut config, &"owner".to_string(), u),
        Err(ContractError::ValueGreaterThanOne)
    );
    let mut u = no_updates();
    u.allowed_coins = Some(vec!["unitA".to_string(), "unitA".to_string()]);
    assert_eq!(
        update_config(&mut config, &"owner".to_string(), u),
        Err(ContractError::Duplicates)
    );
    let mut u = no_updates();
    u.max_unlocking_positions = Some(9);
    u.oracle = Some("oracle2".to_string());
    assert!(update_config(&mut config, &"owner".to_string(), u).is_ok());
    assert_eq!(config.max_unlocking_positions, 9);
    assert_eq!(config.oracle, "oracle2");
    // untouched fields stay
    assert_eq!(config.swapper, "swapper");
}
