use credit_manager::config::{Config, VaultConfig, VaultConfigEntry};
use credit_manager::dispatch::{dispatch_actions, execute_callback, execute_steps, Observations};
use credit_manager::health::assert_max_ltv;
use credit_manager::math::DECIMAL_ONE;
use credit_manager::state::State;
use credit_manager::types::{Action, Coin, ContractError, Health, Instruction, Step};
use credit_manager::vault::{UpdateType, VaultPositionUpdate};

fn coin(denom: &str, amount: u128) -> Coin {
    Coin {
        denom: denom.to_string(),
        amount,
    }
}

fn test_config() -> Config {
    Config {
        owner: "owner".to_string(),
        account_nft: Some("nft".to_string()),
        red_bank: "red_bank".to_string(),
        oracle: "oracle".to_string(),
        swapper: "swapper".to_string(),
        zapper: "zapper".to_string(),
        max_close_factor: DECIMAL_ONE / 2,
        max_unlocking_positions: 5,
        allowed_coins: vec!["unitA".to_string(), "unitB".to_string()],
        vault_configs: vec![
            VaultConfigEntry {
                addr: "vault1".to_string(),
                config: VaultConfig {
                    whitelisted: true,
                    deposit_cap: coin("unitA", 1_000_000),
                },
            },
            VaultConfigEntry {
                addr: "vault2".to_string(),
                config: VaultConfig {
                    whitelisted: true,
                    deposit_cap: coin("unitA", 1_000_000),
                },
            },
        ],
    }
}

fn healthy() -> Health {
    Health {
        max_ltv_health_factor: None,
        liquidatable: false,
    }
}

fn obs() -> Observations {
    Observations {
        total_debt_amount: 0,
        health: healthy(),
        lockup: None,
        unlock_matured: false,
        vault_base_token: "unitA".to_string(),
        deposit_value: 0,
        vault_balance_value: 0,
        deposit_cap_value: 0,
        vault_balance: 0,
        debt_price: DECIMAL_ONE,
        request_price: DECIMAL_ONE,
        liquidation_discount: 0,
        account_owner: "user".to_string(),
        external_balances: Vec::new(),
    }
}

#[test]
fn only_the_token_owner_may_dispatch() {
    let config = test_config();
    let mut state = State::new(config);
    let r = dispatch_actions(
        &state.config,
        &mut state.balances,
        &"intruder".to_string(),
        &"user".to_string(),
        &"acct1".to_string(),
        &vec![],
        &vec![],
        &healthy(),
    );
    assert_eq!(r, Err(ContractError::NotTokenOwner));
}

#[test]
fn protocol_contracts_may_not_dispatch() {
    let config = test_config();
    let mut state = State::new(config);
    let r = dispatch_actions(
        &state.config,
        &mut state.balances,
        &"red_bank".to_string(),
        &"red_bank".to_string(),
        &"acct1".to_string(),
        &vec![],
        &vec![],
        &healthy(),
    );
    assert_eq!(r, Err(ContractError::IllegalContractCaller));
}

#[test]
fn deposits_apply_now_and_the_rest_becomes_steps() {
    let config = test_config();
    let mut state = State::new(config);
    let user = "user".to_string();
    let acct = "acct1".to_string();
    let steps = dispatch_actions(
        &state.config,
        &mut state.balances,
        &user,
        &user,
        &acct,
        &vec![
            Action::Deposit(coin("unitA", 100)),
            Action::Borrow(coin("unitB", 50)),
        ],
        &vec![coin("unitA", 100)],
        &healthy(),
    )
    .unwrap();
    assert_eq!(state.balances.get_amount(&acct, &"unitA".to_string()), 100);
    assert_eq!(
        steps,
        vec![
            Step::Borrow {
                account_id: "acct1".to_string(),
                coin: coin("unitB", 50)
            },
            Step::AssertOneVaultPositionOnly {
                account_id: "acct1".to_string()
            },
            Step::AssertMaxLtv {
                account_id: "acct1".to_string(),
                prev_health: healthy()
            },
        ]
    );
}

#[test]
fn attached_funds_must_be_consumed_exactly() {
    let config = test_config();
    let mut state = State::new(config);
    let user = "user".to_string();
    let acct = "acct1".to_string();
    // leftover funds are rejected: no dust may get stuck in the contract
    let r = dispatch_actions(
        &state.config,
        &mut state.balances,
        &user,
        &user,
        &acct,
        &vec![Action::Deposit(coin("unitA", 60))],
        &vec![coin("unitA", 100)],
        &healthy(),
    );
    // the error carries exactly what was left unconsumed
    assert_eq!(
        r,
        Err(ContractError::ExtraFundsReceived(vec![coin("unitA", 40)]))
    );
    // a deposit beyond the attached funds is rejected
    let r = dispatch_actions(
        &state.config,
        &mut state.balances,
        &user,
        &user,
        &acct,
        &vec![Action::Deposit(coin("unitA", 100))],
        &vec![coin("unitA", 60)],
        &healthy(),
    );
    assert_eq!(r, Err(ContractError::FundsMismatch));
    // duplicate fund denoms and zero amounts are invalid
    let r = dispatch_actions(
        &state.config,
        &mut state.balances,
        &user,
        &user,
        &acct,
        &vec![],
        &vec![coin("unitA", 5), coin("unitA", 5)],
        &healthy(),
    );
    assert_eq!(r, Err(ContractError::Duplicates));
    let r = dispatch_actions(
        &state.config,
        &mut state.balances,
        &user,
        &user,
        &acct,
        &vec![],
        &vec![coin("unitA", 0)],
        &healthy(),
    );
    assert_eq!(r, Err(ContractError::NoAmount));
    // an unlisted deposit denom is rejected
    let r = dispatch_actions(
        &state.config,
        &mut state.balances,
        &user,
        &user,
        &acct,
        &vec![Action::Deposit(coin("ujake", 5))],
        &vec![coin("ujake", 5)],
        &healthy(),
    );
    assert_eq!(r, Err(ContractError::NotWhitelisted("ujake".to_string())));
}

#[test]
fn steps_run_only_for_the_dispatcher_identity() {
    let config = test_config();
    let mut state = State::new(config);
    let r = execute_callback(
        &mut state,
        &"mallory".to_string(),
        &"credit_manager".to_string(),
        &Step::RefundAllCoinBalances {
            account_id: "acct1".to_string(),
        },
        &obs(),
    );
    assert_eq!(r, Err(ContractError::ExternalInvocation));
}

#[test]
fn a_batch_ending_in_two_vaults_is_rejected() {
    let config = test_config();
    let mut state = State::new(config);
    let acct = "acct1".to_string();
    for vault in ["vault1", "vault2"] {
        state
            .vaults
            .update_vault_position(
                &acct,
                &vault.to_string(),
                &VaultPositionUpdate::Unlocked {
                    amount: 10,
                    kind: UpdateType::Increment,
                },
            )
            .unwrap();
    }
    let steps = vec![
        Step::AssertOneVaultPositionOnly {
            account_id: "acct1".to_string(),
        },
        Step::AssertMaxLtv {
            account_id: "acct1".to_string(),
            prev_health: healthy(),
        },
    ];
    let observations = vec![obs(), obs()];
    let addr = "credit_manager".to_string();
    let r = execute_steps(&mut state, &addr, &steps, &observations);
    assert_eq!(r, Err(ContractError::OnlyOneVaultPositionAllowed));
}

#[test]
fn a_batch_with_one_vault_passes_the_trailing_asserts() {
    let config = test_config();
    let mut state = State::new(config);
    let acct = "acct1".to_string();
    state
        .vaults
        .update_vault_position(
            &acct,
            &"vault1".to_string(),
            &VaultPositionUpdate::Unlocked {
                amount: 10,
                kind: UpdateType::Increment,
            },
        )
        .unwrap();
    let steps = vec![
        Step::AssertOneVaultPositionOnly {
            account_id: "acct1".to_string(),
        },
        Step::AssertMaxLtv {
            account_id: "acct1".to_string(),
            prev_health: healthy(),
        },
    ];
    let observations = vec![obs(), obs()];
    let addr = "credit_manager".to_string();
    assert!(execute_steps(&mut state, &addr, &steps, &observations).is_ok());
}

#[test]
fn health_non_regression_rules() {
    let hf = |v: u128| Health {
        max_ltv_health_factor: Some(v),
        liquidatable: false,
    };
    let point_8 = hf(800_000_000_000_000_000);
    let point_75 = hf(750_000_000_000_000_000);
    let point_85 = hf(850_000_000_000_000_000);
    let one_2 = hf(1_200_000_000_000_000_000);
    let point_9 = hf(900_000_000_000_000_000);

    // a healthy account must stay healthy
    assert_eq!(
        assert_max_ltv(&one_2, &point_9),
        Err(ContractError::AboveMaxLtv)
    );
    assert!(assert_max_ltv(&one_2, &hf(DECIMAL_ONE)).is_ok());
    // 0.8 -> 0.75 is rejected
    assert_eq!(
        assert_max_ltv(&point_8, &point_75),
        Err(ContractError::AboveMaxLtv)
    );
    // 0.8 -> 0.85 is accepted
    assert!(assert_max_ltv(&point_8, &point_85).is_ok());
    // no debt counts as healthy on both sides
    assert!(assert_max_ltv(&healthy(), &healthy()).is_ok());
    assert!(assert_max_ltv(&point_8, &healthy()).is_ok());
    assert_eq!(
        assert_max_ltv(&healthy(), &point_9),
        Err(ContractError::AboveMaxLtv)
    );
}

#[test]
fn dispatched_borrow_executes_end_to_end() {
    let config = test_config();
    let mut state = State::new(config);
    let user = "user".to_string();
    let acct = "acct1".to_string();
    let addr = "credit_manager".to_string();
    let steps = dispatch_actions(
        &state.config,
        &mut state.balances,
        &user,
        &user,
        &acct,
        &vec![
            Action::Deposit(coin("unitA", 100)),
            Action::Borrow(coin("unitB", 50)),
        ],
        &vec![coin("unitA", 100)],
        &healthy(),
    )
    .unwrap();
    let observations = vec![obs(), obs(), obs()];
    let instrs = execute_steps(&mut state, &addr, &steps, &observations).unwrap();
    assert_eq!(state.balances.get_amount(&acct, &"unitA".to_string()), 100);
    assert_eq!(state.balances.get_amount(&acct, &"unitB".to_string()), 50);
    assert_eq!(state.debt.shares.get_amount(&acct, &"unitB".to_string()), 50);
    assert_eq!(
        instrs,
        vec![Instruction::PoolBorrow {
            coin: coin("unitB", 50)
        }]
    );
}

#[test]
fn withdraw_step_debits_and_transfers() {
    let config = test_config();
    let mut state = State::new(config);
    let acct = "acct1".to_string();
    let addr = "credit_manager".to_string();
    state.balances.set_amount(&acct, &"unitA".to_string(), 80);
    let instrs = execute_callback(
        &mut state,
        &addr,
        &addr,
        &Step::Withdraw {
            account_id: "acct1".to_string(),
            coin: coin("unitA", 30),
            recipient: "user".to_string(),
        },
        &obs(),
    )
    .unwrap();
    assert_eq!(state.balances.get_amount(&acct, &"unitA".to_string()), 50);
    assert_eq!(
        instrs,
        vec![Instruction::TransferToUser {
            recipient: "user".to_string(),
            coin: coin("unitA", 30)
        }]
    );
}

#[test]
fn refund_step_returns_every_balance_to_the_owner() {
    let config = test_config();
    let mut state = State::new(config);
    let acct = "acct1".to_string();
    let addr = "credit_manager".to_string();
    state.balances.set_amount(&acct, &"unitA".to_string(), 80);
    state.balances.set_amount(&acct, &"unitB".to_string(), 5);
    let instrs = execute_callback(
        &mut state,
        &addr,
        &addr,
        &Step::RefundAllCoinBalances {
            account_id: "acct1".to_string(),
        },
        &obs(),
    )
    .unwrap();
    assert_eq!(state.balances.get_amount(&acct, &"unitA".to_string()), 0);
    assert_eq!(state.balances.get_amount(&acct, &"unitB".to_string()), 0);
    assert_eq!(
        instrs,
        vec![
            Instruction::TransferToUser {
                recipient: "user".to_string(),
                coin: coin("unitA", 80)
            },
            Instruction::TransferToUser {
                recipient: "user".to_string(),
                coin: coin("unitB", 5)
            },
        ]
    );
}

#[test]
fn balance_reconciliation_credits_the_gain() {
    let config = test_config();
    let mut state = State::new(config);
    let acct = "acct1".to_string();
    let addr = "credit_manager".to_string();
    let mut o = obs();
    o.external_balances = vec![coin("unitA", 25)];
    let r = execute_callback(
        &mut state,
        &addr,
        &addr,
        &Step::UpdateCoinBalances {
            account_id: "acct1".to_string(),
            previous_balances: vec![coin("unitA", 10)],
        },
        &o,
    );
    assert!(r.is_ok());
    assert_eq!(state.balances.get_amount(&acct, &"unitA".to_string()), 15);
}
