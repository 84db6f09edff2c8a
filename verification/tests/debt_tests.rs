use credit_manager::config::{Config, VaultConfig, VaultConfigEntry};
use credit_manager::debt::{borrow, current_debt_for_denom, repay, DebtLedger};
use credit_manager::ledger::PairLedger;
use credit_manager::math::{mul_ratio_floor, DECIMAL_ONE};
use credit_manager::types::{Coin, ContractError, Instruction};

fn coin(denom: &str, amount: u128) -> Coin {
    Coin {
        denom: denom.to_string(),
        amount,
    }
}

fn test_config() -> Config {
    Config {
        owner: "owner".to_string(),
        account_nft: None,
        red_bank: "red_bank".to_string(),
        oracle: "oracle".to_string(),
        swapper: "swapper".to_string(),
        zapper: "zapper".to_string(),
        max_close_factor: DECIMAL_ONE / 2,
        max_unlocking_positions: 2,
        allowed_coins: vec!["unitA".to_string(), "unitB".to_string()],
        vault_configs: vec![VaultConfigEntry {
            addr: "vault1".to_string(),
            config: VaultConfig {
                whitelisted: true,
                deposit_cap: coin("unitA", 1_000_000),
            },
        }],
    }
}

#[test]
fn bootstrap_borrow_mints_one_to_one() {
    let config = test_config();
    let mut debt = DebtLedger::new();
    let mut balances = PairLedger::new();
    let acct = "acct1".to_string();
    let unit_b = "unitB".to_string();

    // empty pool: 50 borrowed mints 50 shares
    let instrs = borrow(&config, &mut debt, &mut balances, &acct, &coin("unitB", 50), 0).unwrap();
    assert_eq!(debt.shares.get_amount(&acct, &unit_b), 50);
    assert_eq!(debt.totals.get_amount(&unit_b), 50);
    assert_eq!(balances.get_amount(&acct, &unit_b), 50);
    assert_eq!(
        instrs,
        vec![Instruction::PoolBorrow {
            coin: coin("unitB", 50)
        }]
    );

    // a second account borrows 50 against a pool reporting 50 outstanding:
    // 50 * 50 / 50 = 50 shares, cumulative total 100
    let acct2 = "acct2".to_string();
    borrow(&config, &mut debt, &mut balances, &acct2, &coin("unitB", 50), 50).unwrap();
    assert_eq!(debt.shares.get_amount(&acct2, &unit_b), 50);
    assert_eq!(debt.totals.get_amount(&unit_b), 100);

    // an account's shares never exceed the denom's total
    assert!(debt.shares.get_amount(&acct, &unit_b) <= debt.totals.get_amount(&unit_b));
    assert!(debt.shares.get_amount(&acct2, &unit_b) <= debt.totals.get_amount(&unit_b));
}

#[test]
fn borrow_rejects_zero_and_unlisted() {
    let config = test_config();
    let mut debt = DebtLedger::new();
    let mut balances = PairLedger::new();
    let acct = "acct1".to_string();
    assert_eq!(
        borrow(&config, &mut debt, &mut balances, &acct, &coin("unitB", 0), 0),
        Err(ContractError::NoAmount)
    );
    assert_eq!(
        borrow(&config, &mut debt, &mut balances, &acct, &coin("ujake", 5), 0),
        Err(ContractError::NotWhitelisted("ujake".to_string()))
    );
}

#[test]
fn repay_caps_at_debt_owed() {
    let config = test_config();
    let mut debt = DebtLedger::new();
    let mut balances = PairLedger::new();
    let acct = "acct1".to_string();
    let unit_b = "unitB".to_string();

    borrow(&config, &mut debt, &mut balances, &acct, &coin("unitB", 100), 0).unwrap();
    // the pool reports 100 outstanding; asking to repay 150 applies only 100
    let instrs = repay(
        &config,
        &mut debt,
        &mut balances,
        &acct,
        &coin("unitB", 150),
        100,
    )
    .unwrap();
    assert_eq!(
        instrs,
        vec![Instruction::PoolRepay {
            coin: coin("unitB", 100)
        }]
    );
    // debt never goes negative: the full repayment deletes the row
    assert_eq!(debt.shares.get_amount(&acct, &unit_b), 0);
    assert_eq!(debt.totals.get_amount(&unit_b), 0);
    // only the applied amount left the balance
    assert_eq!(balances.get_amount(&acct, &unit_b), 0);
}

#[test]
fn repay_partial_burns_proportional_shares() {
    let config = test_config();
    let mut debt = DebtLedger::new();
    let mut balances = PairLedger::new();
    let acct = "acct1".to_string();
    let unit_b = "unitB".to_string();

    borrow(&config, &mut debt, &mut balances, &acct, &coin("unitB", 100), 0).unwrap();
    // pool grew to 200 while 100 shares are issued: repaying 50 burns 25 shares
    repay(
        &config,
        &mut debt,
        &mut balances,
        &acct,
        &coin("unitB", 50),
        200,
    )
    .unwrap();
    assert_eq!(debt.shares.get_amount(&acct, &unit_b), 75);
    assert_eq!(debt.totals.get_amount(&unit_b), 75);
    assert_eq!(balances.get_amount(&acct, &unit_b), 50);
}

#[test]
fn repay_error_cases() {
    let config = test_config();
    let mut debt = DebtLedger::new();
    let mut balances = PairLedger::new();
    let acct = "acct1".to_string();

    assert_eq!(
        repay(&config, &mut debt, &mut balances, &acct, &coin("unitB", 0), 10),
        Err(ContractError::NoAmount)
    );
    assert_eq!(
        repay(&config, &mut debt, &mut balances, &acct, &coin("ujake", 5), 10),
        Err(ContractError::NotWhitelisted("ujake".to_string()))
    );
    assert_eq!(
        repay(&config, &mut debt, &mut balances, &acct, &coin("unitB", 5), 10),
        Err(ContractError::NoDebt)
    );
    // shares exist but the pool reports zero debt: the ratio denominator is
    // zero outside the bootstrap branch, a fatal arithmetic error
    borrow(&config, &mut debt, &mut balances, &acct, &coin("unitB", 10), 0).unwrap();
    assert_eq!(
        repay(&config, &mut debt, &mut balances, &acct, &coin("unitB", 5), 0),
        Err(ContractError::DivideByZero)
    );
}

#[test]
fn current_debt_converts_through_pool_total() {
    let config = test_config();
    let mut debt = DebtLedger::new();
    let mut balances = PairLedger::new();
    let acct = "acct1".to_string();
    borrow(&config, &mut debt, &mut balances, &acct, &coin("unitB", 100), 0).unwrap();
    // 100 of 100 shares against 250 outstanding: owed 250
    let (owed, shares) = current_debt_for_denom(&debt, &acct, &"unitB".to_string(), 250).unwrap();
    assert_eq!(owed, 250);
    assert_eq!(shares, 100);
    assert_eq!(
        current_debt_for_denom(&debt, &"nobody".to_string(), &"unitB".to_string(), 250),
        Err(ContractError::NoDebt)
    );
}

#[test]
fn mul_ratio_floor_matches_integer_semantics() {
    // floored: 10 * 3 / 4 = 7
    assert_eq!(mul_ratio_floor(10, 3, 4), Ok(7));
    // 5 * 99 / 100 = 4, the example cosmwasm documents
    assert_eq!(mul_ratio_floor(5, 99, 100), Ok(4));
    assert_eq!(mul_ratio_floor(1, 1, 0), Err(ContractError::DivideByZero));
    assert_eq!(mul_ratio_floor(u128::MAX, 2, 1), Err(ContractError::Overflow));
    // the 256-bit product survives even when it exceeds 128 bits
    assert_eq!(mul_ratio_floor(u128::MAX, 2, 4), Ok(u128::MAX / 2));
}
