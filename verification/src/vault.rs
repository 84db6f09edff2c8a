use vstd::prelude::*;
use crate::types::ContractError;

verus! {

/// A uniquely identified, time-delayed quantum of a vault position pending
/// withdrawal. Ids grow with creation order, so the lot list is oldest first.
#[derive(Debug, Clone, Copy, PartialEq, Eq)]
pub struct UnlockingLot {
    pub id: u64,
    pub amount: u128,
}

/// The sum of the amounts of a lot list.
pub open spec fn sum_lots(s: Seq<UnlockingLot>) -> int
    decreases s.len(),
{
    if s.len() == 0 {
        0
    } else {
        sum_lots(s.drop_last()) + s.last().amount as int
    }
}

/// The three buckets of one (account, vault) position, and the id the next
/// unlocking lot will take.
#[derive(Debug)]
pub struct VaultPositionAmount {
    pub unlocked: u128,
    pub locked: u128,
    pub unlocking: Vec<UnlockingLot>,
    pub next_lot_id: u64,
}

impl VaultPositionAmount {
    /// Lot ids grow strictly along the list, stay below the next fresh id,
    /// and every lot holds a positive amount.
    pub open spec fn wf(self) -> bool {
        &&& forall|i: int, j: int|
            0 <= i < j < self.unlocking@.len() ==> self.unlocking@[i].id < self.unlocking@[j].id
        &&& forall|i: int|
            0 <= i < self.unlocking@.len() ==> self.unlocking@[i].id < self.next_lot_id
        &&& forall|i: int| 0 <= i < self.unlocking@.len() ==> self.unlocking@[i].amount > 0
    }

    /// All three buckets are empty; such a position is deleted.
    pub open spec fn is_empty_spec(self) -> bool {
        self.unlocked == 0 && self.locked == 0 && self.unlocking@.len() == 0
    }

    /// Everything the position holds, over all three buckets.
    pub open spec fn total_spec(self) -> int {
        self.unlocked + self.locked + sum_lots(self.unlocking@)
    }

    pub fn new() -> (r: VaultPositionAmount)
        ensures
            r.wf(),
            r.is_empty_spec(),
            r.unlocked == 0,
            r.locked == 0,
            r.unlocking@.len() == 0,
            r.next_lot_id == 0,
    {
        VaultPositionAmount { unlocked: 0, locked: 0, unlocking: Vec::new(), next_lot_id: 0 }
    }

    /// A fresh position equal to this one.
    pub fn duplicate(&self) -> (r: VaultPositionAmount)
        ensures
            r.unlocked == self.unlocked,
            r.locked == self.locked,
            r.unlocking@ == self.unlocking@,
            r.next_lot_id == self.next_lot_id,
    {
        let mut lots: Vec<UnlockingLot> = Vec::new();
        let n = self.unlocking.len();
        for i in 0..n
            invariant
                n == self.unlocking@.len(),
                lots@ == self.unlocking@.take(i as int),
        {
            lots.push(self.unlocking[i]);
            proof {
                assert(lots@ =~= self.unlocking@.take(i + 1));
            }
        }
        proof {
            assert(self.unlocking@.take(n as int) =~= self.unlocking@);
        }
        VaultPositionAmount {
            unlocked: self.unlocked,
            locked: self.locked,
            unlocking: lots,
            next_lot_id: self.next_lot_id,
        }
    }

    pub fn is_empty(&self) -> (r: bool)
        ensures
            r == self.is_empty_spec(),
    {
        self.unlocked == 0 && self.locked == 0 && self.unlocking.len() == 0
    }

    /// The position's total across all buckets; overflow of the machine range
    /// is a fatal arithmetic error.
    pub fn total(&self) -> (r: Result<u128, ContractError>)
        ensures
            self.total_spec() <= u128::MAX ==> r == Ok::<u128, ContractError>(
                self.total_spec() as u128,
            ),
            self.total_spec() > u128::MAX ==> r == Err::<u128, ContractError>(
                ContractError::Overflow,
            ),
    {
        let mut acc: u128 = self.unlocked;
        if self.locked > u128::MAX - acc {
            proof {
                lemma_sum_lots_nonneg(self.unlocking@);
            }
            return Err(ContractError::Overflow);
        }
        acc = acc + self.locked;
        let n = self.unlocking.len();
        for i in 0..n
            invariant
                n == self.unlocking@.len(),
                acc == self.unlocked + self.locked + sum_lots(self.unlocking@.take(i as int)),
                self.total_spec() <= u128::MAX || i < n,
        {
            proof {
                assert(self.unlocking@.take(i + 1).drop_last() =~= self.unlocking@.take(i as int));
                lemma_sum_lots_prefix_le(self.unlocking@, i + 1);
            }
            if self.unlocking[i].amount > u128::MAX - acc {
                proof {
                    assert(sum_lots(self.unlocking@.take(i + 1)) <= sum_lots(self.unlocking@));
                }
                return Err(ContractError::Overflow);
            }
            acc = acc + self.unlocking[i].amount;
        }
        proof {
            assert(self.unlocking@.take(n as int) =~= self.unlocking@);
        }
        Ok(acc)
    }
}

pub proof fn lemma_sum_lots_nonneg(s: Seq<UnlockingLot>)
    ensures
        sum_lots(s) >= 0,
    decreases s.len(),
{
    if s.len() > 0 {
        lemma_sum_lots_nonneg(s.drop_last());
    }
}

/// A prefix of a lot list sums to no more than the whole list.
pub proof fn lemma_sum_lots_prefix_le(s: Seq<UnlockingLot>, n: int)
    requires
        0 <= n <= s.len(),
    ensures
        sum_lots(s.take(n)) <= sum_lots(s),
    decreases s.len() - n,
{
    if n < s.len() {
        lemma_sum_lots_prefix_le(s, n + 1);
        assert(s.take(n + 1).drop_last() =~= s.take(n));
        assert(sum_lots(s.take(n)) <= sum_lots(s.take(n + 1)));
    } else {
        assert(s.take(n) =~= s);
    }
}

/// One row of the vault-position ledger.
#[derive(Debug)]
pub struct VaultPositionEntry {
    pub account_id: String,
    pub vault_addr: String,
    pub amount: VaultPositionAmount,
}

pub open spec fn vault_key_is(e: VaultPositionEntry, a: Seq<char>, v: Seq<char>) -> bool {
    e.account_id@ == a && e.vault_addr@ == v
}

pub open spec fn vault_keys_distinct(s: Seq<VaultPositionEntry>) -> bool {
    forall|i: int, j: int|
        0 <= i < j < s.len() ==> !(s[i].account_id@ == s[j].account_id@ && s[i].vault_addr@
            == s[j].vault_addr@)
}

/// The position a key holds, if any row holds the key.
pub open spec fn position_in(s: Seq<VaultPositionEntry>, a: Seq<char>, v: Seq<char>) -> Option<
    VaultPositionAmount,
> decreases s.len(),
{
    if s.len() == 0 {
        None
    } else if vault_key_is(s.last(), a, v) {
        Some(s.last().amount)
    } else {
        position_in(s.drop_last(), a, v)
    }
}

/// How many rows an account holds, over all vaults.
pub open spec fn count_for(s: Seq<VaultPositionEntry>, a: Seq<char>) -> int
    decreases s.len(),
{
    if s.len() == 0 {
        0
    } else {
        count_for(s.drop_last(), a) + if s.last().account_id@ == a {
            1int
        } else {
            0int
        }
    }
}

pub proof fn lemma_position_at_index(s: Seq<VaultPositionEntry>, i: int)
    requires
        vault_keys_distinct(s),
        0 <= i < s.len(),
    ensures
        position_in(s, s[i].account_id@, s[i].vault_addr@) == Some(s[i].amount),
    decreases s.len(),
{
    if i < s.len() - 1 {
        lemma_position_at_index(s.drop_last(), i);
    }
}

pub proof fn lemma_position_absent(s: Seq<VaultPositionEntry>, a: Seq<char>, v: Seq<char>)
    requires
        forall|i: int| 0 <= i < s.len() ==> !vault_key_is(s[i], a, v),
    ensures
        position_in(s, a, v) is None,
    decreases s.len(),
{
    if s.len() > 0 {
        lemma_position_absent(s.drop_last(), a, v);
    }
}

pub proof fn lemma_position_update(
    s: Seq<VaultPositionEntry>,
    i: int,
    e: VaultPositionEntry,
    a: Seq<char>,
    v: Seq<char>,
)
    requires
        vault_keys_distinct(s),
        0 <= i < s.len(),
        e.account_id@ == s[i].account_id@,
        e.vault_addr@ == s[i].vault_addr@,
    ensures
        position_in(s.update(i, e), a, v) == if vault_key_is(e, a, v) {
            Some(e.amount)
        } else {
            position_in(s, a, v)
        },
    decreases s.len(),
{
    let t = s.update(i, e);
    if i == s.len() - 1 {
        assert(t.drop_last() =~= s.drop_last());
        if vault_key_is(e, a, v) {
        } else if vault_key_is(s.last(), a, v) {
            lemma_position_absent(s.drop_last(), a, v);
        }
    } else {
        assert(t.last() == s.last());
        assert(t.drop_last() =~= s.drop_last().update(i, e));
        lemma_position_update(s.drop_last(), i, e, a, v);
    }
}

pub proof fn lemma_position_remove(s: Seq<VaultPositionEntry>, i: int, a: Seq<char>, v: Seq<char>)
    requires
        vault_keys_distinct(s),
        0 <= i < s.len(),
    ensures
        position_in(s.remove(i), a, v) == if vault_key_is(s[i], a, v) {
            None::<VaultPositionAmount>
        } else {
            position_in(s, a, v)
        },
    decreases s.len(),
{
    let t = s.remove(i);
    if i == s.len() - 1 {
        assert(t =~= s.drop_last());
        if vault_key_is(s.last(), a, v) {
            lemma_position_absent(s.drop_last(), a, v);
        }
    } else {
        assert(t.last() == s.last());
        assert(t.drop_last() =~= s.drop_last().remove(i));
        lemma_position_remove(s.drop_last(), i, a, v);
    }
}

pub proof fn lemma_count_update(s: Seq<VaultPositionEntry>, i: int, e: VaultPositionEntry, a: Seq<
    char,
>)
    requires
        0 <= i < s.len(),
        e.account_id@ == s[i].account_id@,
    ensures
        count_for(s.update(i, e), a) == count_for(s, a),
    decreases s.len(),
{
    let t = s.update(i, e);
    if i == s.len() - 1 {
        assert(t.drop_last() =~= s.drop_last());
    } else {
        assert(t.last() == s.last());
        assert(t.drop_last() =~= s.drop_last().update(i, e));
        lemma_count_update(s.drop_last(), i, e, a);
    }
}

pub proof fn lemma_count_remove(s: Seq<VaultPositionEntry>, i: int, a: Seq<char>)
    requires
        0 <= i < s.len(),
    ensures
        count_for(s.remove(i), a) == count_for(s, a) - (if s[i].account_id@ == a {
            1int
        } else {
            0int
        }),
    decreases s.len(),
{
    let t = s.remove(i);
    if i == s.len() - 1 {
        assert(t =~= s.drop_last());
    } else {
        assert(t.last() == s.last());
        assert(t.drop_last() =~= s.drop_last().remove(i));
        lemma_count_remove(s.drop_last(), i, a);
    }
}

/// The vault-position ledger: one row per (account, vault) pair that holds
/// anything; a row with all buckets empty is deleted at once.
#[derive(Debug)]
pub struct VaultLedger {
    pub entries: Vec<VaultPositionEntry>,
}

impl VaultLedger {
    pub open spec fn wf(self) -> bool {
        &&& vault_keys_distinct(self.entries@)
        &&& forall|i: int| 0 <= i < self.entries@.len() ==> self.entries@[i].amount.wf()
        &&& forall|i: int|
            0 <= i < self.entries@.len() ==> !self.entries@[i].amount.is_empty_spec()
    }

    pub open spec fn view_of(self, a: Seq<char>, v: Seq<char>) -> Option<VaultPositionAmount> {
        position_in(self.entries@, a, v)
    }

    pub open spec fn has_position(self, a: Seq<char>, v: Seq<char>) -> bool {
        self.view_of(a, v) is Some
    }

    pub open spec fn unlocked_of(self, a: Seq<char>, v: Seq<char>) -> u128 {
        match self.view_of(a, v) {
            Some(p) => p.unlocked,
            None => 0,
        }
    }

    pub open spec fn locked_of(self, a: Seq<char>, v: Seq<char>) -> u128 {
        match self.view_of(a, v) {
            Some(p) => p.locked,
            None => 0,
        }
    }

    pub open spec fn lots_of(self, a: Seq<char>, v: Seq<char>) -> Seq<UnlockingLot> {
        match self.view_of(a, v) {
            Some(p) => p.unlocking@,
            None => Seq::empty(),
        }
    }

    pub open spec fn next_lot_id_of(self, a: Seq<char>, v: Seq<char>) -> u64 {
        match self.view_of(a, v) {
            Some(p) => p.next_lot_id,
            None => 0,
        }
    }

    /// How many vaults the account holds a position in.
    pub open spec fn position_count_of(self, a: Seq<char>) -> int {
        count_for(self.entries@, a)
    }

    pub fn new() -> (r: VaultLedger)
        ensures
            r.wf(),
            r.entries@.len() == 0,
            forall|a: Seq<char>, v: Seq<char>| r.view_of(a, v) is None,
            forall|a: Seq<char>| r.position_count_of(a) == 0,
    {
        VaultLedger { entries: Vec::new() }
    }

    pub fn position_index(&self, account_id: &String, vault_addr: &String) -> (r: Option<usize>)
        requires
            self.wf(),
        ensures
            match r {
                Some(i) => i < self.entries@.len() && vault_key_is(
                    self.entries@[i as int],
                    account_id@,
                    vault_addr@,
                ) && self.view_of(account_id@, vault_addr@) == Some(
                    self.entries@[i as int].amount,
                ),
                None => self.view_of(account_id@, vault_addr@) is None,
            },
    {
        let n = self.entries.len();
        for i in 0..n
            invariant
                self.wf(),
                n == self.entries@.len(),
                forall|j: int| 0 <= j < i ==> !vault_key_is(self.entries@[j], account_id@, vault_addr@),
        {
            if self.entries[i].account_id == *account_id && self.entries[i].vault_addr
                == *vault_addr {
                proof {
                    lemma_position_at_index(self.entries@, i as int);
                }
                return Some(i);
            }
        }
        proof {
            lemma_position_absent(self.entries@, account_id@, vault_addr@);
        }
        None
    }

    /// Rejects an account that holds non-zero positions in more than one
    /// vault: the single-concentrated-exposure policy of the protocol.
    pub fn assert_only_one_vault_position(&self, account_id: &String) -> (r: Result<
        (),
        ContractError,
    >)
        ensures
            r is Ok <==> self.position_count_of(account_id@) <= 1,
            r is Err ==> r == Err::<(), ContractError>(ContractError::OnlyOneVaultPositionAllowed),
    {
        let mut count: u64 = 0;
        let n = self.entries.len();
        proof {
            lemma_count_le_len(self.entries@, account_id@);
        }
        for i in 0..n
            invariant
                n == self.entries@.len(),
                count == count_for(self.entries@.take(i as int), account_id@),
                count <= i,
        {
            proof {
                assert(self.entries@.take(i + 1).drop_last() =~= self.entries@.take(i as int));
            }
            if self.entries[i].account_id == *account_id {
                count = count + 1;
            }
        }
        proof {
            assert(self.entries@.take(n as int) =~= self.entries@);
        }
        if count > 1 {
            Err(ContractError::OnlyOneVaultPositionAllowed)
        } else {
            Ok(())
        }
    }
}

pub proof fn lemma_count_le_len(s: Seq<VaultPositionEntry>, a: Seq<char>)
    ensures
        0 <= count_for(s, a) <= s.len(),
    decreases s.len(),
{
    if s.len() > 0 {
        lemma_count_le_len(s.drop_last(), a);
    }
}

/// The index of the lot with an id, or -1 when none holds it.
pub open spec fn lot_index_of(s: Seq<UnlockingLot>, id: u64) -> int
    decreases s.len(),
{
    if s.len() == 0 {
        -1
    } else if s.last().id == id {
        s.len() - 1
    } else {
        lot_index_of(s.drop_last(), id)
    }
}

pub open spec fn lot_ids_distinct(s: Seq<UnlockingLot>) -> bool {
    forall|i: int, j: int| 0 <= i < j < s.len() ==> s[i].id != s[j].id
}

pub proof fn lemma_lot_index_found(s: Seq<UnlockingLot>, j: int)
    requires
        lot_ids_distinct(s),
        0 <= j < s.len(),
    ensures
        lot_index_of(s, s[j].id) == j,
    decreases s.len(),
{
    if j < s.len() - 1 {
        lemma_lot_index_found(s.drop_last(), j);
    }
}

pub proof fn lemma_lot_index_absent(s: Seq<UnlockingLot>, id: u64)
    requires
        forall|i: int| 0 <= i < s.len() ==> s[i].id != id,
    ensures
        lot_index_of(s, id) == -1,
    decreases s.len(),
{
    if s.len() > 0 {
        lemma_lot_index_absent(s.drop_last(), id);
    }
}

pub proof fn lemma_lot_index_bounds(s: Seq<UnlockingLot>, id: u64)
    ensures
        -1 <= lot_index_of(s, id) < s.len(),
        lot_index_of(s, id) >= 0 ==> s[lot_index_of(s, id)].id == id,
    decreases s.len(),
{
    if s.len() > 0 {
        lemma_lot_index_bounds(s.drop_last(), id);
    }
}

/// Increment or decrement of a bucket.
#[derive(Debug, Clone, Copy, PartialEq, Eq)]
pub enum UpdateType {
    Increment,
    Decrement,
}

/// One mutation of a vault position, named by bucket.
#[derive(Debug, Clone, PartialEq, Eq)]
pub enum VaultPositionUpdate {
    Unlocked { amount: u128, kind: UpdateType },
    Locked { amount: u128, kind: UpdateType },
    Unlocking { id: u64, amount: u128, kind: UpdateType },
}

/// The bucket contents of a position, as mathematical values.
#[verifier::ext_equal]
pub struct PositionSnapshot {
    pub unlocked: u128,
    pub locked: u128,
    pub lots: Seq<UnlockingLot>,
}

/// What one position update yields: the new buckets, or the error that
/// rejects it. Decrementing an unlocking lot to zero removes the lot.
pub open spec fn update_outcome(s: PositionSnapshot, u: VaultPositionUpdate) -> Result<
    PositionSnapshot,
    ContractError,
> {
    match u {
        VaultPositionUpdate::Unlocked { amount, kind } => match kind {
            UpdateType::Increment => if s.unlocked + amount > u128::MAX {
                Err(ContractError::Overflow)
            } else {
                Ok(PositionSnapshot { unlocked: (s.unlocked + amount) as u128, ..s })
            },
            UpdateType::Decrement => if amount > s.unlocked {
                Err(ContractError::Underflow)
            } else {
                Ok(PositionSnapshot { unlocked: (s.unlocked - amount) as u128, ..s })
            },
        },
        VaultPositionUpdate::Locked { amount, kind } => match kind {
            UpdateType::Increment => if s.locked + amount > u128::MAX {
                Err(ContractError::Overflow)
            } else {
                Ok(PositionSnapshot { locked: (s.locked + amount) as u128, ..s })
            },
            UpdateType::Decrement => if amount > s.locked {
                Err(ContractError::Underflow)
            } else {
                Ok(PositionSnapshot { locked: (s.locked - amount) as u128, ..s })
            },
        },
        VaultPositionUpdate::Unlocking { id, amount, kind } => {
            let li = lot_index_of(s.lots, id);
            if li < 0 {
                Err(ContractError::NoPositionMatch)
            } else {
                let lot = s.lots[li];
                match kind {
                    UpdateType::Increment => if lot.amount + amount > u128::MAX {
                        Err(ContractError::Overflow)
                    } else {
                        Ok(
                            PositionSnapshot {
                                lots: s.lots.update(
                                    li,
                                    UnlockingLot { id, amount: (lot.amount + amount) as u128 },
                                ),
                                ..s
                            },
                        )
                    },
                    UpdateType::Decrement => if amount > lot.amount {
                        Err(ContractError::Underflow)
                    } else if amount == lot.amount {
                        Ok(PositionSnapshot { lots: s.lots.remove(li), ..s })
                    } else {
                        Ok(
                            PositionSnapshot {
                                lots: s.lots.update(
                                    li,
                                    UnlockingLot { id, amount: (lot.amount - amount) as u128 },
                                ),
                                ..s
                            },
                        )
                    },
                }
            }
        },
    }
}

impl VaultPositionAmount {
    pub open spec fn snapshot(self) -> PositionSnapshot {
        PositionSnapshot { unlocked: self.unlocked, locked: self.locked, lots: self.unlocking@ }
    }

    pub(crate) fn find_lot(&self, id: u64) -> (r: Option<usize>)
        requires
            self.wf(),
        ensures
            match r {
                Some(j) => j == lot_index_of(self.unlocking@, id),
                None => lot_index_of(self.unlocking@, id) == -1,
            },
    {
        let n = self.unlocking.len();
        for j in 0..n
            invariant
                self.wf(),
                n == self.unlocking@.len(),
                forall|k: int| 0 <= k < j ==> self.unlocking@[k].id != id,
        {
            if self.unlocking[j].id == id {
                proof {
                    lemma_lot_index_found(self.unlocking@, j as int);
                }
                return Some(j);
            }
        }
        proof {
            lemma_lot_index_absent(self.unlocking@, id);
        }
        None
    }

    /// Applies one bucket update in place; a rejected update leaves the
    /// position untouched.
    fn apply_update(&mut self, update: &VaultPositionUpdate) -> (r: Result<(), ContractError>)
        requires
            old(self).wf(),
        ensures
            final(self).wf(),
            final(self).next_lot_id == old(self).next_lot_id,
            match update_outcome(old(self).snapshot(), *update) {
                Ok(s2) => r is Ok && final(self).snapshot() == s2,
                Err(e) => r == Err::<(), ContractError>(e) && *final(self) == *old(self),
            },
    {
        match update {
            VaultPositionUpdate::Unlocked { amount, kind } => match kind {
                UpdateType::Increment => {
                    if *amount > u128::MAX - self.unlocked {
                        return Err(ContractError::Overflow);
                    }
                    self.unlocked = self.unlocked + *amount;
                    Ok(())
                },
                UpdateType::Decrement => {
                    if *amount > self.unlocked {
                        return Err(ContractError::Underflow);
                    }
                    self.unlocked = self.unlocked - *amount;
                    Ok(())
                },
            },
            VaultPositionUpdate::Locked { amount, kind } => match kind {
                UpdateType::Increment => {
                    if *amount > u128::MAX - self.locked {
                        return Err(ContractError::Overflow);
                    }
                    self.locked = self.locked + *amount;
                    Ok(())
                },
                UpdateType::Decrement => {
                    if *amount > self.locked {
                        return Err(ContractError::Underflow);
                    }
                    self.locked = self.locked - *amount;
                    Ok(())
                },
            },
            VaultPositionUpdate::Unlocking { id, amount, kind } => {
                let j = match self.find_lot(*id) {
                    Some(j) => j,
                    None => {
                        return Err(ContractError::NoPositionMatch);
                    },
                };
                proof {
                    lemma_lot_index_bounds(self.unlocking@, *id);
                }
                let lot_amount = self.unlocking[j].amount;
                match kind {
                    UpdateType::Increment => {
                        if *amount > u128::MAX - lot_amount {
                            return Err(ContractError::Overflow);
                        }
                        self.unlocking[j] = UnlockingLot { id: *id, amount: lot_amount + *amount };
                        Ok(())
                    },
                    UpdateType::Decrement => {
                        if *amount > lot_amount {
                            return Err(ContractError::Underflow);
                        }
                        if *amount == lot_amount {
                            self.unlocking.remove(j);
                            Ok(())
                        } else {
                            self.unlocking[j] = UnlockingLot {
                                id: *id,
                                amount: lot_amount - *amount,
                            };
                            Ok(())
                        }
                    },
                }
            },
        }
    }
}

impl VaultLedger {
    /// Loads the key's position (an absent row reads as an empty position),
    /// applies one bucket update, and deletes the row when every bucket is
    /// empty afterwards. A rejected update leaves the ledger untouched.
    pub fn update_vault_position(
        &mut self,
        account_id: &String,
        vault_addr: &String,
        update: &VaultPositionUpdate,
    ) -> (r: Result<(), ContractError>)
        requires
            old(self).wf(),
        ensures
            final(self).wf(),
            match update_outcome(old(self).snapshot_of(account_id@, vault_addr@), *update) {
                Err(e) => r == Err::<(), ContractError>(e) && final(self).entries@ == old(
                    self,
                ).entries@,
                Ok(s2) => {
                    &&& r is Ok
                    &&& final(self).snapshot_of(account_id@, vault_addr@) == s2
                    &&& final(self).has_position(account_id@, vault_addr@) == !(s2.unlocked == 0
                        && s2.locked == 0 && s2.lots.len() == 0)
                    &&& forall|a2: Seq<char>, v2: Seq<char>|
                        !(a2 == account_id@ && v2 == vault_addr@) ==> final(self).view_of(a2, v2)
                            == old(self).view_of(a2, v2)
                    &&& forall|a2: Seq<char>|
                        a2 != account_id@ ==> final(self).position_count_of(a2) == old(
                            self,
                        ).position_count_of(a2)
                    &&& final(self).position_count_of(account_id@) == old(
                        self,
                    ).position_count_of(account_id@) + (if !old(self).has_position(
                        account_id@,
                        vault_addr@,
                    ) && !(s2.unlocked == 0 && s2.locked == 0 && s2.lots.len() == 0) {
                        1int
                    } else if old(self).has_position(account_id@, vault_addr@) && (s2.unlocked == 0
                        && s2.locked == 0 && s2.lots.len() == 0) {
                        -1int
                    } else {
                        0int
                    })
                },
            },
    {
        let ghost s0 = self.entries@;
        match self.position_index(account_id, vault_addr) {
            Some(i) => {
                let ghost e0 = self.entries@[i as int];
                let res = self.apply_update_at(i, update);
                match res {
                    Err(e) => {
                        proof {
                            assert(self.entries@ =~= s0);
                        }
                        Err(e)
                    },
                    Ok(()) => {
                        proof {
                            assert(self.entries@ == s0.update(i as int, self.entries@[i as int]));
                            assert forall|i2: int, j2: int| 0 <= i2 < j2 < self.entries@.len()
                                implies !(self.entries@[i2].account_id@
                                == self.entries@[j2].account_id@ && self.entries@[i2].vault_addr@
                                == self.entries@[j2].vault_addr@) by {
                                assert(self.entries@[i2].account_id@ == s0[i2].account_id@
                                    && self.entries@[i2].vault_addr@ == s0[i2].vault_addr@);
                                assert(self.entries@[j2].account_id@ == s0[j2].account_id@
                                    && self.entries@[j2].vault_addr@ == s0[j2].vault_addr@);
                            }
                            assert forall|a2: Seq<char>, v2: Seq<char>| true implies position_in(
                                self.entries@,
                                a2,
                                v2,
                            ) == (if vault_key_is(self.entries@[i as int], a2, v2) {
                                Some(self.entries@[i as int].amount)
                            } else {
                                position_in(s0, a2, v2)
                            }) by {
                                lemma_position_update(s0, i as int, self.entries@[i as int], a2, v2);
                            }
                            lemma_count_update(s0, i as int, self.entries@[i as int], account_id@);
                            assert forall|a2: Seq<char>| a2 != account_id@ implies count_for(
                                self.entries@,
                                a2,
                            ) == count_for(s0, a2) by {
                                lemma_count_update(s0, i as int, self.entries@[i as int], a2);
                            }
                        }
                        let ghost s1 = self.entries@;
                        if self.entries[i].amount.is_empty() {
                            self.entries.remove(i);
                            proof {
                                assert forall|a2: Seq<char>, v2: Seq<char>| true implies
                                    position_in(self.entries@, a2, v2) == (if vault_key_is(
                                    s1[i as int],
                                    a2,
                                    v2,
                                ) {
                                    None::<VaultPositionAmount>
                                } else {
                                    position_in(s1, a2, v2)
                                }) by {
                                    lemma_position_remove(s1, i as int, a2, v2);
                                }
                                lemma_count_remove(s1, i as int, account_id@);
                                assert forall|a2: Seq<char>| a2 != account_id@ implies count_for(
                                    self.entries@,
                                    a2,
                                ) == count_for(s1, a2) by {
                                    lemma_count_remove(s1, i as int, a2);
                                }
                            }
                        }
                        Ok(())
                    },
                }
            },
            None => {
                proof {
                    assert forall|j: int| 0 <= j < s0.len() implies !vault_key_is(
                        s0[j],
                        account_id@,
                        vault_addr@,
                    ) by {
                        if vault_key_is(s0[j], account_id@, vault_addr@) {
                            lemma_position_at_index(s0, j);
                        }
                    }
                }
                let mut p = VaultPositionAmount::new();
                let res = p.apply_update(update);
                match res {
                    Err(e) => Err(e),
                    Ok(()) => {
                        if p.is_empty() {
                            Ok(())
                        } else {
                            let e = VaultPositionEntry {
                                account_id: account_id.clone(),
                                vault_addr: vault_addr.clone(),
                                amount: p,
                            };
                            self.entries.push(e);
                            proof {
                                assert(self.entries@.drop_last() =~= s0);
                            }
                            Ok(())
                        }
                    },
                }
            },
        }
    }

    /// The bucket contents under a key; an absent row reads as empty buckets.
    pub open spec fn snapshot_of(self, a: Seq<char>, v: Seq<char>) -> PositionSnapshot {
        PositionSnapshot {
            unlocked: self.unlocked_of(a, v),
            locked: self.locked_of(a, v),
            lots: self.lots_of(a, v),
        }
    }

    /// Applies one bucket update to the row at a known index, keeping the
    /// row's key. The row may be left with all buckets empty; the caller
    /// deletes such a row.
    fn apply_update_at(&mut self, i: usize, update: &VaultPositionUpdate) -> (r: Result<
        (),
        ContractError,
    >)
        requires
            old(self).wf(),
            i < old(self).entries@.len(),
        ensures
            final(self).entries@ == old(self).entries@.update(
                i as int,
                final(self).entries@[i as int],
            ),
            final(self).entries@.len() == old(self).entries@.len(),
            final(self).entries@[i as int].account_id == old(self).entries@[i as int].account_id,
            final(self).entries@[i as int].vault_addr == old(self).entries@[i as int].vault_addr,
            final(self).entries@[i as int].amount.wf(),
            final(self).entries@[i as int].amount.next_lot_id == old(
                self,
            ).entries@[i as int].amount.next_lot_id,
            forall|j: int|
                0 <= j < old(self).entries@.len() && j != i ==> final(self).entries@[j] == old(
                    self,
                ).entries@[j],
            match update_outcome(old(self).entries@[i as int].amount.snapshot(), *update) {
                Ok(s2) => r is Ok && final(self).entries@[i as int].amount.snapshot() == s2,
                Err(e) => r == Err::<(), ContractError>(e) && final(self).entries@ == old(
                    self,
                ).entries@,
            },
    {
        let ghost s0 = self.entries@;
        let res = self.entries[i].amount.apply_update(update);
        proof {
            assert(self.entries@ =~= s0.update(i as int, self.entries@[i as int]));
            if res is Err {
                assert(self.entries@ =~= s0);
            }
        }
        res
    }

    /// Moves an amount from the Locked bucket into a freshly created
    /// unlocking lot. Rejected when the lot count would exceed the
    /// configured maximum, so no well-formed sequence of requests ever
    /// pushes a position past it.
    pub fn request_unlock(
        &mut self,
        account_id: &String,
        vault_addr: &String,
        amount: u128,
        maximum: u128,
    ) -> (r: Result<u64, ContractError>)
        requires
            old(self).wf(),
        ensures
            final(self).wf(),
            r is Err ==> final(self).entries@ == old(self).entries@,
            amount == 0 ==> r == Err::<u64, ContractError>(ContractError::NoAmount),
            amount > 0 && old(self).lots_of(account_id@, vault_addr@).len() + 1 > maximum ==> r
                == Err::<u64, ContractError>(
                ContractError::ExceedsMaxUnlockingPositions {
                    new_amount: (old(self).lots_of(account_id@, vault_addr@).len() + 1) as u128,
                    maximum,
                },
            ),
            amount > 0 && old(self).lots_of(account_id@, vault_addr@).len() + 1 <= maximum
                && amount > old(self).locked_of(account_id@, vault_addr@) ==> r == Err::<
                u64,
                ContractError,
            >(ContractError::Underflow),
            amount > 0 && old(self).lots_of(account_id@, vault_addr@).len() + 1 <= maximum
                && amount <= old(self).locked_of(account_id@, vault_addr@) && old(
                self,
            ).next_lot_id_of(account_id@, vault_addr@) == u64::MAX ==> r == Err::<
                u64,
                ContractError,
            >(ContractError::Overflow),
            r matches Ok(id) ==> {
                &&& amount > 0
                &&& id == old(self).next_lot_id_of(account_id@, vault_addr@)
                &&& final(self).locked_of(account_id@, vault_addr@) == old(self).locked_of(
                    account_id@,
                    vault_addr@,
                ) - amount
                &&& final(self).unlocked_of(account_id@, vault_addr@) == old(self).unlocked_of(
                    account_id@,
                    vault_addr@,
                )
                &&& final(self).lots_of(account_id@, vault_addr@) == old(self).lots_of(
                    account_id@,
                    vault_addr@,
                ).push(UnlockingLot { id, amount })
                &&& final(self).lots_of(account_id@, vault_addr@).len() <= maximum
                &&& final(self).next_lot_id_of(account_id@, vault_addr@) == id + 1
                &&& forall|a2: Seq<char>, v2: Seq<char>|
                    !(a2 == account_id@ && v2 == vault_addr@) ==> final(self).view_of(a2, v2)
                        == old(self).view_of(a2, v2)
                &&& forall|a2: Seq<char>|
                    final(self).position_count_of(a2) == old(self).position_count_of(a2)
            },
    {
        if amount == 0 {
            return Err(ContractError::NoAmount);
        }
        let ghost s0 = self.entries@;
        match self.position_index(account_id, vault_addr) {
            Some(i) => {
                let lot_count = self.entries[i].amount.unlocking.len();
                let new_count = (lot_count as u128) + 1;
                if new_count > maximum {
                    return Err(
                        ContractError::ExceedsMaxUnlockingPositions {
                            new_amount: new_count,
                            maximum,
                        },
                    );
                }
                if amount > self.entries[i].amount.locked {
                    return Err(ContractError::Underflow);
                }
                let id = self.entries[i].amount.next_lot_id;
                if id == u64::MAX {
                    return Err(ContractError::Overflow);
                }
                let new_locked = self.entries[i].amount.locked - amount;
                self.entries[i].amount.locked = new_locked;
                self.entries[i].amount.unlocking.push(UnlockingLot { id, amount });
                self.entries[i].amount.next_lot_id = id + 1;
                proof {
                    assert(self.entries@ =~= s0.update(i as int, self.entries@[i as int]));
                    assert(self.entries@[i as int].amount.unlocking@.drop_last() =~= s0[i as int].amount.unlocking@);
                    assert forall|i2: int, j2: int| 0 <= i2 < j2 < self.entries@.len()
                        implies !(self.entries@[i2].account_id@ == self.entries@[j2].account_id@
                        && self.entries@[i2].vault_addr@ == self.entries@[j2].vault_addr@) by {
                        assert(self.entries@[i2].account_id@ == s0[i2].account_id@
                            && self.entries@[i2].vault_addr@ == s0[i2].vault_addr@);
                        assert(self.entries@[j2].account_id@ == s0[j2].account_id@
                            && self.entries@[j2].vault_addr@ == s0[j2].vault_addr@);
                    }
                    assert forall|a2: Seq<char>, v2: Seq<char>| true implies position_in(
                        self.entries@,
                        a2,
                        v2,
                    ) == (if vault_key_is(self.entries@[i as int], a2, v2) {
                        Some(self.entries@[i as int].amount)
                    } else {
                        position_in(s0, a2, v2)
                    }) by {
                        lemma_position_update(s0, i as int, self.entries@[i as int], a2, v2);
                    }
                    assert forall|a2: Seq<char>| true implies count_for(self.entries@, a2)
                        == count_for(s0, a2) by {
                        lemma_count_update(s0, i as int, self.entries@[i as int], a2);
                    }
                }
                Ok(id)
            },
            None => {
                if 1 > maximum {
                    return Err(
                        ContractError::ExceedsMaxUnlockingPositions { new_amount: 1, maximum },
                    );
                }
                Err(ContractError::Underflow)
            },
        }
    }

    /// Removes the unlocking lot with the given id from a position, handing
    /// back its amount; the row is deleted when that empties the position.
    pub fn remove_lot(&mut self, account_id: &String, vault_addr: &String, lot_id: u64) -> (r:
        Result<u128, ContractError>)
        requires
            old(self).wf(),
        ensures
            final(self).wf(),
            r is Err ==> final(self).entries@ == old(self).entries@,
            !old(self).has_position(account_id@, vault_addr@) ==> r == Err::<u128, ContractError>(
                ContractError::NoPosition,
            ),
            old(self).has_position(account_id@, vault_addr@) && lot_index_of(
                old(self).lots_of(account_id@, vault_addr@),
                lot_id,
            ) < 0 ==> r == Err::<u128, ContractError>(ContractError::NoPositionMatch),
            r matches Ok(amount) ==> {
                let lots = old(self).lots_of(account_id@, vault_addr@);
                let li = lot_index_of(lots, lot_id);
                &&& li >= 0
                &&& amount == lots[li].amount
                &&& final(self).lots_of(account_id@, vault_addr@) == lots.remove(li)
                &&& final(self).unlocked_of(account_id@, vault_addr@) == old(self).unlocked_of(
                    account_id@,
                    vault_addr@,
                )
                &&& final(self).locked_of(account_id@, vault_addr@) == old(self).locked_of(
                    account_id@,
                    vault_addr@,
                )
                &&& forall|a2: Seq<char>, v2: Seq<char>|
                    !(a2 == account_id@ && v2 == vault_addr@) ==> final(self).view_of(a2, v2)
                        == old(self).view_of(a2, v2)
            },
    {
        let ghost s0 = self.entries@;
        let i = match self.position_index(account_id, vault_addr) {
            Some(i) => i,
            None => {
                return Err(ContractError::NoPosition);
            },
        };
        let j = match self.entries[i].amount.find_lot(lot_id) {
            Some(j) => j,
            None => {
                return Err(ContractError::NoPositionMatch);
            },
        };
        proof {
            lemma_lot_index_bounds(self.entries@[i as int].amount.unlocking@, lot_id);
        }
        let amount = self.entries[i].amount.unlocking[j].amount;
        self.entries[i].amount.unlocking.remove(j);
        proof {
            assert(self.entries@ =~= s0.update(i as int, self.entries@[i as int]));
            assert forall|i2: int, j2: int| 0 <= i2 < j2 < self.entries@.len()
                implies !(self.entries@[i2].account_id@ == self.entries@[j2].account_id@
                && self.entries@[i2].vault_addr@ == self.entries@[j2].vault_addr@) by {
                assert(self.entries@[i2].account_id@ == s0[i2].account_id@
                    && self.entries@[i2].vault_addr@ == s0[i2].vault_addr@);
                assert(self.entries@[j2].account_id@ == s0[j2].account_id@
                    && self.entries@[j2].vault_addr@ == s0[j2].vault_addr@);
            }
            assert forall|a2: Seq<char>, v2: Seq<char>| true implies position_in(
                self.entries@,
                a2,
                v2,
            ) == (if vault_key_is(self.entries@[i as int], a2, v2) {
                Some(self.entries@[i as int].amount)
            } else {
                position_in(s0, a2, v2)
            }) by {
                lemma_position_update(s0, i as int, self.entries@[i as int], a2, v2);
            }
        }
        let ghost s1 = self.entries@;
        if self.entries[i].amount.is_empty() {
            self.entries.remove(i);
            proof {
                assert forall|a2: Seq<char>, v2: Seq<char>| true implies position_in(
                    self.entries@,
                    a2,
                    v2,
                ) == (if vault_key_is(s1[i as int], a2, v2) {
                    None::<VaultPositionAmount>
                } else {
                    position_in(s1, a2, v2)
                }) by {
                    lemma_position_remove(s1, i as int, a2, v2);
                }
            }
        }
        Ok(amount)
    }
}

} // verus!
