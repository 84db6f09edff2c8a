use vstd::prelude::*;

verus! {

/// A coin: a denomination together with an unsigned amount.
#[derive(Debug, Clone, PartialEq, Eq)]
pub struct Coin {
    pub denom: String,
    pub amount: u128,
}

impl Coin {
    pub fn new(denom: &String, amount: u128) -> (c: Coin)
        ensures
            c.denom@ == denom@,
            c.amount == amount,
    {
        Coin { denom: denom.clone(), amount }
    }

    /// A fresh coin equal to this one.
    pub fn duplicate(&self) -> (c: Coin)
        ensures
            c == *self,
    {
        Coin { denom: self.denom.clone(), amount: self.amount }
    }
}

/// A fresh coin list equal to the given one.
pub fn duplicate_coins(coins: &Vec<Coin>) -> (r: Vec<Coin>)
    ensures
        r@ == coins@,
{
    let mut r: Vec<Coin> = Vec::new();
    let n = coins.len();
    for i in 0..n
        invariant
            n == coins@.len(),
            r@ == coins@.take(i as int),
    {
        r.push(coins[i].duplicate());
        proof {
            assert(r@ =~= coins@.take(i + 1));
        }
    }
    proof {
        assert(coins@.take(n as int) =~= coins@);
    }
    r
}

impl ActionCoin {
    /// A fresh action coin equal to this one.
    pub fn duplicate(&self) -> (c: ActionCoin)
        ensures
            c == *self,
    {
        ActionCoin {
            denom: self.denom.clone(),
            amount: match self.amount {
                ActionAmount::Exact(x) => ActionAmount::Exact(x),
                ActionAmount::AccountBalance => ActionAmount::AccountBalance,
            },
        }
    }
}

/// Every failure the core can surface. Any error aborts the enclosing
/// transaction; the host reverts all state mutations of the batch.
#[derive(Debug, Clone, PartialEq, Eq)]
pub enum ContractError {
    /// Caller is not the owner of the credit account.
    NotTokenOwner,
    /// Caller is one of the protocol's own collaborator contracts.
    IllegalContractCaller,
    /// A privileged deferred step was invoked by anyone but the dispatcher.
    ExternalInvocation,
    /// Caller is not the protocol owner.
    NotOwner,
    /// Asset or vault is not whitelisted.
    NotWhitelisted(String),
    /// Attached funds were not fully consumed by deposit actions; carries
    /// what was left over.
    ExtraFundsReceived(Vec<Coin>),
    /// A deposit does not match the attached funds.
    FundsMismatch,
    /// A list of denoms or vaults holds a duplicate.
    Duplicates,
    /// A fraction that must be at most one exceeds one.
    ValueGreaterThanOne,
    /// An action carried a zero amount.
    NoAmount,
    /// The account has no debt position for the denom.
    NoDebt,
    /// The account has no position in the vault.
    NoPosition,
    /// No unlocking lot with the requested id exists.
    NoPositionMatch,
    /// The unlocking lot has not matured yet.
    UnlockNotReady,
    /// Creating one more unlocking lot would exceed the configured maximum.
    ExceedsMaxUnlockingPositions { new_amount: u128, maximum: u128 },
    /// The account would end the batch with positions in two or more vaults.
    OnlyOneVaultPositionAllowed,
    /// The deposit would push the vault's value above its cap.
    AboveVaultDepositCap { new_value: u128, maximum: u128 },
    /// The coin does not match the vault's base token.
    RequirementsNotMet,
    /// The vault balance did not grow after a deposit settled.
    NoVaultCoinsReceived,
    /// Unsigned arithmetic overflowed.
    Overflow,
    /// Unsigned arithmetic underflowed.
    Underflow,
    /// A ratio was taken against a zero denominator outside the bootstrap case.
    DivideByZero,
    /// The batch would weaken the account's health.
    AboveMaxLtv,
    /// Liquidation was requested against a healthy account.
    NotLiquidatable,
    /// An account cannot liquidate itself.
    SelfLiquidation,
}

/// An amount a user names in an action: exact, or the account's whole balance
/// of the denom.
#[derive(Debug, Clone, PartialEq, Eq)]
pub enum ActionAmount {
    Exact(u128),
    AccountBalance,
}

/// A coin whose amount may refer to the account's balance.
#[derive(Debug, Clone, PartialEq, Eq)]
pub struct ActionCoin {
    pub denom: String,
    pub amount: ActionAmount,
}

/// One user-requested action of a batch.
#[derive(Debug, Clone, PartialEq, Eq)]
pub enum Action {
    Deposit(Coin),
    Withdraw(Coin),
    Borrow(Coin),
    Repay(Coin),
    EnterVault { vault: String, coin: ActionCoin },
    ExitVault { vault: String, amount: u128 },
    RequestVaultUnlock { vault: String, amount: u128 },
    ExitVaultUnlocked { id: u64, vault: String },
    LiquidateCoin { liquidatee_account_id: String, debt_coin: Coin, request_coin_denom: String },
    LiquidateVault { liquidatee_account_id: String, debt_coin: Coin, request_vault: String },
    RefundAllCoinBalances,
}

/// The health evaluator's verdict on an account: the max-loan-to-value health
/// factor as a fixed-point ratio (absent when the account has no debt), and
/// whether the account may be liquidated.
#[derive(Debug, Clone, Copy, PartialEq, Eq)]
pub struct Health {
    pub max_ltv_health_factor: Option<u128>,
    pub liquidatable: bool,
}

/// One deferred step of the dispatch queue. Steps execute strictly in enqueue
/// order, each as a privileged sub-invocation open to the dispatcher identity
/// alone.
#[allow(inconsistent_fields)]
#[derive(Debug, Clone, PartialEq, Eq)]
pub enum Step {
    Withdraw { account_id: String, coin: Coin, recipient: String },
    Borrow { account_id: String, coin: Coin },
    Repay { account_id: String, coin: Coin },
    EnterVault { account_id: String, vault: String, coin: ActionCoin },
    UpdateVaultCoinBalance { vault: String, account_id: String, previous_total_balance: u128 },
    ExitVault { account_id: String, vault: String, amount: u128 },
    RequestVaultUnlock { account_id: String, vault: String, amount: u128 },
    ExitVaultUnlocked { account_id: String, vault: String, position_id: u64 },
    LiquidateCoin {
        liquidator_account_id: String,
        liquidatee_account_id: String,
        debt_coin: Coin,
        request_coin_denom: String,
    },
    LiquidateVault {
        liquidator_account_id: String,
        liquidatee_account_id: String,
        debt_coin: Coin,
        request_vault: String,
    },
    UpdateCoinBalances { account_id: String, previous_balances: Vec<Coin> },
    RefundAllCoinBalances { account_id: String },
    AssertOneVaultPositionOnly { account_id: String },
    AssertMaxLtv { account_id: String, prev_health: Health },
}

/// An outward instruction a step hands the host to perform against a
/// collaborator, or a follow-up step to enqueue.
#[derive(Debug, Clone, PartialEq, Eq)]
pub enum Instruction {
    PoolBorrow { coin: Coin },
    PoolRepay { coin: Coin },
    VaultDeposit { vault: String, coin: Coin },
    VaultWithdraw { vault: String, amount: u128, force: bool },
    VaultForceWithdrawUnlocking { vault: String, lot_id: u64, amount: u128 },
    VaultRequestUnlock { vault: String, amount: u128 },
    VaultWithdrawUnlocked { vault: String, lot_id: u64 },
    TransferToUser { recipient: String, coin: Coin },
    EnqueueStep(Step),
}

} // verus!
