use vstd::prelude::*;
use crate::types::{Coin, ContractError};
use crate::math::DECIMAL_ONE;

verus! {

/// Governance-set configuration of one vault.
#[derive(Debug, Clone, PartialEq, Eq)]
pub struct VaultConfig {
    pub whitelisted: bool,
    /// The cap on the vault's total value, as a value-denominated coin.
    pub deposit_cap: Coin,
}

#[derive(Debug, Clone, PartialEq, Eq)]
pub struct VaultConfigEntry {
    pub addr: String,
    pub config: VaultConfig,
}

/// Contract-level configuration. Read-only to every step handler; mutated by
/// the owner alone.
#[derive(Debug)]
pub struct Config {
    pub owner: String,
    pub account_nft: Option<String>,
    pub red_bank: String,
    pub oracle: String,
    pub swapper: String,
    pub zapper: String,
    /// Largest fraction of outstanding debt one liquidation event may repay.
    pub max_close_factor: u128,
    /// Largest number of open unlocking lots per (account, vault) position.
    pub max_unlocking_positions: u128,
    pub allowed_coins: Vec<String>,
    pub vault_configs: Vec<VaultConfigEntry>,
}

pub open spec fn denoms_distinct(s: Seq<String>) -> bool {
    forall|i: int, j: int| 0 <= i < j < s.len() ==> s[i]@ != s[j]@
}

pub open spec fn vault_addrs_distinct(s: Seq<VaultConfigEntry>) -> bool {
    forall|i: int, j: int| 0 <= i < j < s.len() ==> s[i].addr@ != s[j].addr@
}

impl Config {
    pub open spec fn wf(self) -> bool {
        &&& self.max_close_factor <= DECIMAL_ONE
        &&& denoms_distinct(self.allowed_coins@)
        &&& vault_addrs_distinct(self.vault_configs@)
    }

    /// The denom is on the coin whitelist.
    pub open spec fn coin_allowed(self, d: Seq<char>) -> bool {
        exists|i: int| 0 <= i < self.allowed_coins@.len() && self.allowed_coins@[i]@ == d
    }

    /// The vault is configured and whitelisted.
    pub open spec fn vault_allowed(self, v: Seq<char>) -> bool {
        exists|i: int|
            0 <= i < self.vault_configs@.len() && self.vault_configs@[i].addr@ == v
                && self.vault_configs@[i].config.whitelisted
    }

    pub fn is_coin_whitelisted(&self, denom: &String) -> (r: bool)
        ensures
            r == self.coin_allowed(denom@),
    {
        let n = self.allowed_coins.len();
        for i in 0..n
            invariant
                n == self.allowed_coins@.len(),
                forall|j: int| 0 <= j < i ==> self.allowed_coins@[j]@ != denom@,
        {
            if self.allowed_coins[i] == *denom {
                return true;
            }
        }
        false
    }

    pub fn is_vault_whitelisted(&self, vault: &String) -> (r: bool)
        ensures
            r == self.vault_allowed(vault@),
    {
        let n = self.vault_configs.len();
        for i in 0..n
            invariant
                n == self.vault_configs@.len(),
                forall|j: int|
                    0 <= j < i ==> !(self.vault_configs@[j].addr@ == vault@
                        && self.vault_configs@[j].config.whitelisted),
        {
            if self.vault_configs[i].addr == *vault {
                if self.vault_configs[i].config.whitelisted {
                    return true;
                }
            }
        }
        false
    }

    /// Rejects an asset that is not on the coin whitelist.
    pub fn assert_coin_is_whitelisted(&self, denom: &String) -> (r: Result<(), ContractError>)
        ensures
            r is Ok <==> self.coin_allowed(denom@),
            r is Err ==> r == Err::<(), ContractError>(ContractError::NotWhitelisted(*denom)),
            r matches Err(e) ==> e matches ContractError::NotWhitelisted(s) && s@ == denom@,
    {
        if self.is_coin_whitelisted(denom) {
            Ok(())
        } else {
            Err(ContractError::NotWhitelisted(denom.clone()))
        }
    }

    /// Rejects a vault that is not configured and whitelisted.
    pub fn assert_vault_is_whitelisted(&self, vault: &String) -> (r: Result<(), ContractError>)
        ensures
            r is Ok <==> self.vault_allowed(vault@),
            r is Err ==> r == Err::<(), ContractError>(ContractError::NotWhitelisted(*vault)),
            r matches Err(e) ==> e matches ContractError::NotWhitelisted(s) && s@ == vault@,
    {
        if self.is_vault_whitelisted(vault) {
            Ok(())
        } else {
            Err(ContractError::NotWhitelisted(vault.clone()))
        }
    }

    /// The address belongs to one of the protocol's own collaborator
    /// contracts.
    pub open spec fn protocol_contract(self, c: Seq<char>) -> bool {
        c == self.red_bank@ || c == self.oracle@ || c == self.swapper@ || c == self.zapper@ || (
        self.account_nft matches Some(nft) && c == nft@)
    }

    /// The caller is one of the protocol's own collaborator contracts and may
    /// not drive a credit account.
    pub fn is_contract_address(&self, caller: &String) -> (r: bool)
        ensures
            r == self.protocol_contract(caller@),
    {
        if *caller == self.red_bank || *caller == self.oracle || *caller == self.swapper || *caller
            == self.zapper {
            return true;
        }
        match &self.account_nft {
            Some(nft) => *caller == *nft,
            None => false,
        }
    }
}

/// A batch of governance configuration changes; absent fields stay as they
/// are.
#[derive(Debug)]
pub struct ConfigUpdates {
    pub account_nft: Option<String>,
    pub allowed_coins: Option<Vec<String>>,
    pub vault_configs: Option<Vec<VaultConfigEntry>>,
    pub oracle: Option<String>,
    pub swapper: Option<String>,
    pub zapper: Option<String>,
    pub max_close_factor: Option<u128>,
    pub max_unlocking_positions: Option<u128>,
}

/// Whether a list of denoms holds no duplicate.
pub fn check_denoms_distinct(denoms: &Vec<String>) -> (r: bool)
    ensures
        r == denoms_distinct(denoms@),
{
    let n = denoms.len();
    for i in 0..n
        invariant
            n == denoms@.len(),
            forall|i2: int, j2: int| 0 <= i2 < j2 < i ==> denoms@[i2]@ != denoms@[j2]@,
    {
        for j in 0..i
            invariant
                i < n,
                n == denoms@.len(),
                forall|i2: int, j2: int| 0 <= i2 < j2 < i ==> denoms@[i2]@ != denoms@[j2]@,
                forall|j2: int| 0 <= j2 < j ==> denoms@[j2]@ != denoms@[i as int]@,
        {
            if denoms[j] == denoms[i] {
                return false;
            }
        }
    }
    true
}

/// Whether a list of vault configurations names no vault twice.
pub fn check_vaults_distinct(vaults: &Vec<VaultConfigEntry>) -> (r: bool)
    ensures
        r == vault_addrs_distinct(vaults@),
{
    let n = vaults.len();
    for i in 0..n
        invariant
            n == vaults@.len(),
            forall|i2: int, j2: int| 0 <= i2 < j2 < i ==> vaults@[i2].addr@ != vaults@[j2].addr@,
    {
        for j in 0..i
            invariant
                i < n,
                n == vaults@.len(),
                forall|i2: int, j2: int|
                    0 <= i2 < j2 < i ==> vaults@[i2].addr@ != vaults@[j2].addr@,
                forall|j2: int| 0 <= j2 < j ==> vaults@[j2].addr@ != vaults@[i as int].addr@,
        {
            if vaults[j].addr == vaults[i].addr {
                return false;
            }
        }
    }
    true
}

impl Config {
    /// Validates a configuration as it is first stored: no duplicated denom
    /// or vault, and a close factor of at most one.
    pub fn validate(&self) -> (r: Result<(), ContractError>)
        ensures
            r is Ok <==> self.wf(),
            r is Err ==> r == Err::<(), ContractError>(ContractError::Duplicates) || r == Err::<
                (),
                ContractError,
            >(ContractError::ValueGreaterThanOne),
    {
        if self.max_close_factor > crate::math::DECIMAL_ONE {
            return Err(ContractError::ValueGreaterThanOne);
        }
        if !check_denoms_distinct(&self.allowed_coins) {
            return Err(ContractError::Duplicates);
        }
        if !check_vaults_distinct(&self.vault_configs) {
            return Err(ContractError::Duplicates);
        }
        Ok(())
    }
}

/// Applies a batch of governance updates. Only the protocol owner may do so;
/// a duplicated denom or vault and a close factor above one are rejected, so
/// a well-formed configuration stays well formed.
pub fn update_config(config: &mut Config, caller: &String, updates: ConfigUpdates) -> (r: Result<
    (),
    ContractError,
>)
    requires
        old(config).wf(),
    ensures
        final(config).wf(),
        caller@ != old(config).owner@ ==> r == Err::<(), ContractError>(ContractError::NotOwner)
            && *final(config) == *old(config),
        caller@ == old(config).owner@ ==> ({
            if updates.allowed_coins matches Some(coins) && !denoms_distinct(coins@) {
                r == Err::<(), ContractError>(ContractError::Duplicates) && *final(config) == *old(
                    config,
                )
            } else if updates.vault_configs matches Some(vs) && !vault_addrs_distinct(vs@) {
                r == Err::<(), ContractError>(ContractError::Duplicates) && *final(config) == *old(
                    config,
                )
            } else if updates.max_close_factor matches Some(cf) && cf
                > crate::math::DECIMAL_ONE {
                r == Err::<(), ContractError>(ContractError::ValueGreaterThanOne) && *final(config)
                    == *old(config)
            } else {
                &&& r is Ok
                &&& final(config).owner == old(config).owner
                &&& final(config).red_bank == old(config).red_bank
                &&& final(config).account_nft == (if updates.account_nft is Some {
                    updates.account_nft
                } else {
                    old(config).account_nft
                })
                &&& final(config).allowed_coins@ == (match updates.allowed_coins {
                    Some(coins) => coins@,
                    None => old(config).allowed_coins@,
                })
                &&& final(config).vault_configs@ == (match updates.vault_configs {
                    Some(vs) => vs@,
                    None => old(config).vault_configs@,
                })
                &&& final(config).oracle == (match updates.oracle {
                    Some(o) => o,
                    None => old(config).oracle,
                })
                &&& final(config).swapper == (match updates.swapper {
                    Some(o) => o,
                    None => old(config).swapper,
                })
                &&& final(config).zapper == (match updates.zapper {
                    Some(o) => o,
                    None => old(config).zapper,
                })
                &&& final(config).max_close_factor == (match updates.max_close_factor {
                    Some(cf) => cf,
                    None => old(config).max_close_factor,
                })
                &&& final(config).max_unlocking_positions == (
                match updates.max_unlocking_positions {
                    Some(m) => m,
                    None => old(config).max_unlocking_positions,
                })
            }
        }),
{
    if *caller != config.owner {
        return Err(ContractError::NotOwner);
    }
    match &updates.allowed_coins {
        Some(coins) => {
            if !check_denoms_distinct(coins) {
                return Err(ContractError::Duplicates);
            }
        },
        None => (),
    }
    match &updates.vault_configs {
        Some(vs) => {
            if !check_vaults_distinct(vs) {
                return Err(ContractError::Duplicates);
            }
        },
        None => (),
    }
    match updates.max_close_factor {
        Some(cf) => {
            if cf > crate::math::DECIMAL_ONE {
                return Err(ContractError::ValueGreaterThanOne);
            }
        },
        None => (),
    }
    match updates.account_nft {
        Some(nft) => {
            config.account_nft = Some(nft);
        },
        None => (),
    }
    match updates.allowed_coins {
        Some(coins) => {
            config.allowed_coins = coins;
        },
        None => (),
    }
    match updates.vault_configs {
        Some(vs) => {
            config.vault_configs = vs;
        },
        None => (),
    }
    match updates.oracle {
        Some(o) => {
            config.oracle = o;
        },
        None => (),
    }
    match updates.swapper {
        Some(o) => {
            config.swapper = o;
        },
        None => (),
    }
    match updates.zapper {
        Some(o) => {
            config.zapper = o;
        },
        None => (),
    }
    match updates.max_close_factor {
        Some(cf) => {
            config.max_close_factor = cf;
        },
        None => (),
    }
    match updates.max_unlocking_positions {
        Some(m) => {
            config.max_unlocking_positions = m;
        },
        None => (),
    }
    Ok(())
}

} // verus!
