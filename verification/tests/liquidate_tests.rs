use credit_manager::config::{Config, VaultConfig, VaultConfigEntry};
use credit_manager::debt::{borrow, DebtLedger};
use credit_manager::ledger::PairLedger;
use credit_manager::liquidate::{calculate_liquidation, get_vault_withdraw_msgs, liquidate_coin};
use credit_manager::math::DECIMAL_ONE;
use credit_manager::types::{Coin, ContractError, Health, Instruction, Step};
use credit_manager::vault::{UpdateType, VaultLedger, VaultPositionUpdate};
use credit_manager::vault_ops::request_vault_unlock;
use credit_manager::dispatch::{execute_callback, Observations};
use credit_manager::state::State;

fn coin(denom: &str, amount: u128) -> Coin {
    Coin {
        denom: denom.to_string(),
        amount,
    }
}

fn test_config() -> Config {
    Config {
        owner: "owner".to_string(),
        account_nft: None,
        red_bank: "red_bank".to_string(),
        oracle: "oracle".to_string(),
        swapper: "swapper".to_string(),
        zapper: "zapper".to_string(),
        max_close_factor: DECIMAL_ONE / 2,
        max_unlocking_positions: 5,
        allowed_coins: vec!["unitA".to_string(), "unitB".to_string()],
        vault_configs: vec![VaultConfigEntry {
            addr: "vault1".to_string(),
            config: VaultConfig {
                whitelisted: true,
                deposit_cap: coin("unitA", 1_000_000),
            },
        }],
    }
}

fn unhealthy() -> Health {
    Health {
        max_ltv_health_factor: Some(800_000_000_000_000_000),
        liquidatable: true,
    }
}

fn healthy() -> Health {
    Health {
        max_ltv_health_factor: Some(2 * DECIMAL_ONE),
        liquidatable: false,
    }
}

fn debted_ledger(owed: u128) -> (Config, DebtLedger, PairLedger) {
    let config = test_config();
    let mut debt = DebtLedger::new();
    let mut balances = PairLedger::new();
    borrow(
        &config,
        &mut debt,
        &mut balances,
        &"liquidatee".to_string(),
        &coin("unitB", owed),
        0,
    )
    .unwrap();
    (config, debt, balances)
}

#[test]
fn healthy_accounts_cannot_be_liquidated() {
    let (config, debt, _balances) = debted_ledger(100);
    let r = calculate_liquidation(
        &debt,
        &config,
        &"liquidatee".to_string(),
        &coin("unitB", 80),
        &"unitA".to_string(),
        1_000,
        &healthy(),
        100,
        DECIMAL_ONE,
        DECIMAL_ONE,
        0,
    );
    assert_eq!(r, Err(ContractError::NotLiquidatable));
}

#[test]
fn liquidation_without_debt_is_a_state_error() {
    let config = test_config();
    let debt = DebtLedger::new();
    let r = calculate_liquidation(
        &debt,
        &config,
        &"liquidatee".to_string(),
        &coin("unitB", 80),
        &"unitA".to_string(),
        1_000,
        &unhealthy(),
        100,
        DECIMAL_ONE,
        DECIMAL_ONE,
        0,
    );
    assert_eq!(r, Err(ContractError::NoDebt));
}

#[test]
fn close_factor_caps_the_repaid_debt_silently() {
    let (config, debt, _balances) = debted_ledger(100);
    // owed 100, close factor one half: the ceiling is 50; asking for 80 is
    // capped, not rejected; equal prices and no discount seize 50
    let (debt_part, request_part) = calculate_liquidation(
        &debt,
        &config,
        &"liquidatee".to_string(),
        &coin("unitB", 80),
        &"unitA".to_string(),
        1_000,
        &unhealthy(),
        100,
        DECIMAL_ONE,
        DECIMAL_ONE,
        0,
    )
    .unwrap();
    assert_eq!(debt_part, coin("unitB", 50));
    assert_eq!(request_part, coin("unitA", 50));
}

#[test]
fn liquidation_discount_marks_up_the_seized_collateral() {
    let (config, debt, _balances) = debted_ledger(100);
    // 20% discount: 40 of debt value buys 40 / 0.8 = 50 of collateral
    let (debt_part, request_part) = calculate_liquidation(
        &debt,
        &config,
        &"liquidatee".to_string(),
        &coin("unitB", 40),
        &"unitA".to_string(),
        1_000,
        &unhealthy(),
        100,
        DECIMAL_ONE,
        DECIMAL_ONE,
        DECIMAL_ONE / 5,
    )
    .unwrap();
    assert_eq!(debt_part, coin("unitB", 40));
    assert_eq!(request_part, coin("unitA", 50));
}

#[test]
fn seizure_is_capped_by_the_liquidatee_holdings() {
    let (config, debt, _balances) = debted_ledger(100);
    let (_, request_part) = calculate_liquidation(
        &debt,
        &config,
        &"liquidatee".to_string(),
        &coin("unitB", 50),
        &"unitA".to_string(),
        30,
        &unhealthy(),
        100,
        DECIMAL_ONE,
        DECIMAL_ONE,
        0,
    )
    .unwrap();
    assert_eq!(request_part, coin("unitA", 30));
}

#[test]
fn liquidate_coin_moves_debt_and_collateral() {
    let (config, debt, mut balances) = debted_ledger(100);
    let liquidator = "liquidator".to_string();
    let liquidatee = "liquidatee".to_string();
    let unit_a = "unitA".to_string();
    let unit_b = "unitB".to_string();
    balances.set_amount(&liquidator, &unit_b, 60);
    balances.set_amount(&liquidatee, &unit_a, 200);

    let instrs = liquidate_coin(
        &config,
        &debt,
        &mut balances,
        &liquidator,
        &liquidatee,
        &coin("unitB", 50),
        &unit_a,
        &unhealthy(),
        100,
        DECIMAL_ONE,
        DECIMAL_ONE,
        0,
    )
    .unwrap();
    // the debt coin moved to the liquidatee for the chained repay step
    assert_eq!(balances.get_amount(&liquidator, &unit_b), 10);
    assert_eq!(balances.get_amount(&liquidatee, &unit_b), 150);
    // the seized collateral moved to the liquidator
    assert_eq!(balances.get_amount(&liquidatee, &unit_a), 150);
    assert_eq!(balances.get_amount(&liquidator, &unit_a), 50);
    assert_eq!(
        instrs,
        vec![Instruction::EnqueueStep(Step::Repay {
            account_id: "liquidatee".to_string(),
            coin: coin("unitB", 50)
        })]
    );
}

#[test]
fn self_liquidation_is_rejected() {
    let (config, debt, mut balances) = debted_ledger(100);
    let acct = "liquidatee".to_string();
    let r = liquidate_coin(
        &config,
        &debt,
        &mut balances,
        &acct,
        &acct,
        &coin("unitB", 50),
        &"unitA".to_string(),
        &unhealthy(),
        100,
        DECIMAL_ONE,
        DECIMAL_ONE,
        0,
    );
    assert_eq!(r, Err(ContractError::SelfLiquidation));
}

#[test]
fn vault_withdrawals_drain_oldest_lots_before_locked() {
    let config = test_config();
    let mut vaults = VaultLedger::new();
    let acct = "liquidatee".to_string();
    let vault = "vault1".to_string();
    vaults
        .update_vault_position(
            &acct,
            &vault,
            &VaultPositionUpdate::Locked {
                amount: 80,
                kind: UpdateType::Increment,
            },
        )
        .unwrap();
    request_vault_unlock(&config, &mut vaults, &acct, &vault, 10).unwrap(); // lot 0
    request_vault_unlock(&config, &mut vaults, &acct, &vault, 20).unwrap(); // lot 1

    // 40 to seize: lot 0 whole, lot 1 whole, the last 10 forced out of Locked
    let instrs = get_vault_withdraw_msgs(&mut vaults, &acct, &vault, Some(86400), 40);
    assert_eq!(
        instrs,
        vec![
            Instruction::VaultForceWithdrawUnlocking {
                vault: "vault1".to_string(),
                lot_id: 0,
                amount: 10
            },
            Instruction::VaultForceWithdrawUnlocking {
                vault: "vault1".to_string(),
                lot_id: 1,
                amount: 20
            },
            Instruction::VaultWithdraw {
                vault: "vault1".to_string(),
                amount: 10,
                force: true
            },
        ]
    );
    let i = vaults.position_index(&acct, &vault).unwrap();
    assert_eq!(vaults.entries[i].amount.locked, 40);
    assert_eq!(vaults.entries[i].amount.unlocking.len(), 0);
}

#[test]
fn vault_withdrawals_leave_locked_untouched_while_lots_cover() {
    let config = test_config();
    let mut vaults = VaultLedger::new();
    let acct = "liquidatee".to_string();
    let vault = "vault1".to_string();
    vaults
        .update_vault_position(
            &acct,
            &vault,
            &VaultPositionUpdate::Locked {
                amount: 80,
                kind: UpdateType::Increment,
            },
        )
        .unwrap();
    request_vault_unlock(&config, &mut vaults, &acct, &vault, 10).unwrap(); // lot 0
    request_vault_unlock(&config, &mut vaults, &acct, &vault, 20).unwrap(); // lot 1

    // 15 to seize: lot 0 whole, then 5 of lot 1; Locked stays at 50
    let instrs = get_vault_withdraw_msgs(&mut vaults, &acct, &vault, Some(86400), 15);
    assert_eq!(
        instrs,
        vec![
            Instruction::VaultForceWithdrawUnlocking {
                vault: "vault1".to_string(),
                lot_id: 0,
                amount: 10
            },
            Instruction::VaultForceWithdrawUnlocking {
                vault: "vault1".to_string(),
                lot_id: 1,
                amount: 5
            },
        ]
    );
    let i = vaults.position_index(&acct, &vault).unwrap();
    assert_eq!(vaults.entries[i].amount.locked, 50);
    assert_eq!(vaults.entries[i].amount.unlocking.len(), 1);
    assert_eq!(vaults.entries[i].amount.unlocking[0].id, 1);
    assert_eq!(vaults.entries[i].amount.unlocking[0].amount, 15);
}

#[test]
fn lockup_free_vault_liquidates_from_unlocked() {
    let mut vaults = VaultLedger::new();
    let acct = "liquidatee".to_string();
    let vault = "vault1".to_string();
    vaults
        .update_vault_position(
            &acct,
            &vault,
            &VaultPositionUpdate::Unlocked {
                amount: 70,
                kind: UpdateType::Increment,
            },
        )
        .unwrap();
    let instrs = get_vault_withdraw_msgs(&mut vaults, &acct, &vault, None, 30);
    assert_eq!(
        instrs,
        vec![Instruction::VaultWithdraw {
            vault: "vault1".to_string(),
            amount: 30,
            force: false
        }]
    );
    let i = vaults.position_index(&acct, &vault).unwrap();
    assert_eq!(vaults.entries[i].amount.unlocked, 40);
}

#[test]
fn liquidate_vault_step_runs_end_to_end() {
    let mut state = State::new(test_config());
    let liquidator = "liquidator".to_string();
    let liquidatee = "liquidatee".to_string();
    let vault = "vault1".to_string();
    let addr = "credit_manager".to_string();

    // the liquidatee owes 100 unitB and keeps 80 vault tokens: 50 locked,
    // two unlocking lots of 10 and 20
    borrow(
        &state.config,
        &mut state.debt,
        &mut state.balances,
        &liquidatee,
        &coin("unitB", 100),
        0,
    )
    .unwrap();
    state
        .vaults
        .update_vault_position(
            &liquidatee,
            &vault,
            &VaultPositionUpdate::Locked {
                amount: 80,
                kind: UpdateType::Increment,
            },
        )
        .unwrap();
    request_vault_unlock(&state.config, &mut state.vaults, &liquidatee, &vault, 10).unwrap();
    request_vault_unlock(&state.config, &mut state.vaults, &liquidatee, &vault, 20).unwrap();
    state.balances.set_amount(&liquidator, &"unitB".to_string(), 60);

    let obs = Observations {
        total_debt_amount: 100,
        health: unhealthy(),
        lockup: Some(86400),
        unlock_matured: false,
        vault_base_token: "unitA".to_string(),
        deposit_value: 0,
        vault_balance_value: 0,
        deposit_cap_value: 0,
        vault_balance: 0,
        debt_price: DECIMAL_ONE,
        request_price: DECIMAL_ONE,
        liquidation_discount: 0,
        account_owner: "user".to_string(),
        external_balances: vec![coin("unitA", 5)],
    };
    let instrs = execute_callback(
        &mut state,
        &addr,
        &addr,
        &Step::LiquidateVault {
            liquidator_account_id: "liquidator".to_string(),
            liquidatee_account_id: "liquidatee".to_string(),
            debt_coin: coin("unitB", 50),
            request_vault: "vault1".to_string(),
        },
        &obs,
    )
    .unwrap();

    // close factor one half of the 100 owed: 50 repaid and 50 vault tokens
    // seized, lots first, oldest first, then the locked remainder by force
    assert_eq!(
        instrs,
        vec![
            Instruction::EnqueueStep(Step::Repay {
                account_id: "liquidatee".to_string(),
                coin: coin("unitB", 50)
            }),
            Instruction::VaultForceWithdrawUnlocking {
                vault: "vault1".to_string(),
                lot_id: 0,
                amount: 10
            },
            Instruction::VaultForceWithdrawUnlocking {
                vault: "vault1".to_string(),
                lot_id: 1,
                amount: 20
            },
            Instruction::VaultWithdraw {
                vault: "vault1".to_string(),
                amount: 20,
                force: true
            },
            Instruction::EnqueueStep(Step::UpdateCoinBalances {
                account_id: "liquidator".to_string(),
                previous_balances: vec![coin("unitA", 5)]
            }),
        ]
    );
    // the debt coin moved to the liquidatee for the chained repay
    assert_eq!(
        state.balances.get_amount(&liquidator, &"unitB".to_string()),
        10
    );
    assert_eq!(
        state.balances.get_amount(&liquidatee, &"unitB".to_string()),
        150
    );
    // the position kept 30 locked and no lots
    let i = state.vaults.position_index(&liquidatee, &vault).unwrap();
    assert_eq!(state.vaults.entries[i].amount.locked, 30);
    assert_eq!(state.vaults.entries[i].amount.unlocking.len(), 0);
}
