use vstd::prelude::*;

verus! {

/// One row of a (account, denom) keyed ledger.
#[derive(Debug, Clone)]
pub struct PairEntry {
    pub account_id: String,
    pub denom: String,
    pub amount: u128,
}

pub open spec fn pair_key_is(e: PairEntry, a: Seq<char>, d: Seq<char>) -> bool {
    e.account_id@ == a && e.denom@ == d
}

/// No two rows hold the same key.
pub open spec fn pair_keys_distinct(s: Seq<PairEntry>) -> bool {
    forall|i: int, j: int|
        0 <= i < j < s.len() ==> !(s[i].account_id@ == s[j].account_id@ && s[i].denom@
            == s[j].denom@)
}

/// The amount a key holds: zero when no row holds the key.
pub open spec fn amount_in(s: Seq<PairEntry>, a: Seq<char>, d: Seq<char>) -> u128
    decreases s.len(),
{
    if s.len() == 0 {
        0
    } else if pair_key_is(s.last(), a, d) {
        s.last().amount
    } else {
        amount_in(s.drop_last(), a, d)
    }
}

/// The sum of the amounts of all rows of one denom.
pub open spec fn sum_for(s: Seq<PairEntry>, d: Seq<char>) -> int
    decreases s.len(),
{
    if s.len() == 0 {
        0
    } else {
        sum_for(s.drop_last(), d) + if s.last().denom@ == d {
            s.last().amount as int
        } else {
            0
        }
    }
}

pub proof fn lemma_sum_nonneg(s: Seq<PairEntry>, d: Seq<char>)
    ensures
        sum_for(s, d) >= 0,
    decreases s.len(),
{
    if s.len() > 0 {
        lemma_sum_nonneg(s.drop_last(), d);
    }
}

/// A row's amount never exceeds the denom's sum.
pub proof fn lemma_amount_le_sum(s: Seq<PairEntry>, a: Seq<char>, d: Seq<char>)
    ensures
        amount_in(s, a, d) <= sum_for(s, d),
    decreases s.len(),
{
    if s.len() > 0 {
        if pair_key_is(s.last(), a, d) {
            lemma_sum_nonneg(s.drop_last(), d);
        } else {
            lemma_amount_le_sum(s.drop_last(), a, d);
        }
    }
}

/// With distinct keys, the row holding a key gives the key's amount.
pub proof fn lemma_amount_at_index(s: Seq<PairEntry>, i: int)
    requires
        pair_keys_distinct(s),
        0 <= i < s.len(),
    ensures
        amount_in(s, s[i].account_id@, s[i].denom@) == s[i].amount,
    decreases s.len(),
{
    if i < s.len() - 1 {
        lemma_amount_at_index(s.drop_last(), i);
    }
}

/// A key held by no row has amount zero.
pub proof fn lemma_amount_absent(s: Seq<PairEntry>, a: Seq<char>, d: Seq<char>)
    requires
        forall|i: int| 0 <= i < s.len() ==> !pair_key_is(s[i], a, d),
    ensures
        amount_in(s, a, d) == 0,
    decreases s.len(),
{
    if s.len() > 0 {
        lemma_amount_absent(s.drop_last(), a, d);
    }
}

/// Replacing the row of a key by another row of the same key moves that key's
/// amount and no other.
pub proof fn lemma_amount_update(s: Seq<PairEntry>, i: int, e: PairEntry, a: Seq<char>, d: Seq<
    char,
>)
    requires
        pair_keys_distinct(s),
        0 <= i < s.len(),
        e.account_id@ == s[i].account_id@,
        e.denom@ == s[i].denom@,
    ensures
        amount_in(s.update(i, e), a, d) == if pair_key_is(e, a, d) {
            e.amount
        } else {
            amount_in(s, a, d)
        },
    decreases s.len(),
{
    let t = s.update(i, e);
    if i == s.len() - 1 {
        assert(t.drop_last() =~= s.drop_last());
        if pair_key_is(e, a, d) {
        } else if pair_key_is(s.last(), a, d) {
            lemma_amount_absent(s.drop_last(), a, d);
        }
    } else {
        assert(t.last() == s.last());
        assert(t.drop_last() =~= s.drop_last().update(i, e));
        lemma_amount_update(s.drop_last(), i, e, a, d);
    }
}

pub proof fn lemma_sum_update(s: Seq<PairEntry>, i: int, e: PairEntry, d: Seq<char>)
    requires
        0 <= i < s.len(),
    ensures
        sum_for(s.update(i, e), d) == sum_for(s, d) + (if e.denom@ == d {
            e.amount as int
        } else {
            0
        }) - (if s[i].denom@ == d {
            s[i].amount as int
        } else {
            0
        }),
    decreases s.len(),
{
    let t = s.update(i, e);
    if i == s.len() - 1 {
        assert(t.drop_last() =~= s.drop_last());
    } else {
        assert(t.last() == s.last());
        assert(t.drop_last() =~= s.drop_last().update(i, e));
        lemma_sum_update(s.drop_last(), i, e, d);
    }
}

/// Removing the row of a key zeroes that key's amount and moves no other.
pub proof fn lemma_amount_remove(s: Seq<PairEntry>, i: int, a: Seq<char>, d: Seq<char>)
    requires
        pair_keys_distinct(s),
        0 <= i < s.len(),
    ensures
        amount_in(s.remove(i), a, d) == if pair_key_is(s[i], a, d) {
            0
        } else {
            amount_in(s, a, d)
        },
    decreases s.len(),
{
    let t = s.remove(i);
    if i == s.len() - 1 {
        assert(t =~= s.drop_last());
        if pair_key_is(s.last(), a, d) {
            lemma_amount_absent(s.drop_last(), a, d);
        }
    } else {
        assert(t.last() == s.last());
        assert(t.drop_last() =~= s.drop_last().remove(i));
        lemma_amount_remove(s.drop_last(), i, a, d);
    }
}

pub proof fn lemma_sum_remove(s: Seq<PairEntry>, i: int, d: Seq<char>)
    requires
        0 <= i < s.len(),
    ensures
        sum_for(s.remove(i), d) == sum_for(s, d) - (if s[i].denom@ == d {
            s[i].amount as int
        } else {
            0
        }),
    decreases s.len(),
{
    let t = s.remove(i);
    if i == s.len() - 1 {
        assert(t =~= s.drop_last());
    } else {
        assert(t.last() == s.last());
        assert(t.drop_last() =~= s.drop_last().remove(i));
        lemma_sum_remove(s.drop_last(), i, d);
    }
}

/// A ledger from (account, denom) to a positive amount; an absent key means
/// zero.
#[derive(Debug, Clone)]
pub struct PairLedger {
    pub entries: Vec<PairEntry>,
}

impl PairLedger {
    /// Each key appears at most once and every stored amount is positive:
    /// a row exists exactly when its amount is non-zero.
    pub open spec fn wf(self) -> bool {
        &&& pair_keys_distinct(self.entries@)
        &&& forall|i: int| 0 <= i < self.entries@.len() ==> self.entries@[i].amount > 0
    }

    pub open spec fn amount_of(self, a: Seq<char>, d: Seq<char>) -> u128 {
        amount_in(self.entries@, a, d)
    }

    pub open spec fn sum_of(self, d: Seq<char>) -> int {
        sum_for(self.entries@, d)
    }

    pub open spec fn contains_key(self, a: Seq<char>, d: Seq<char>) -> bool {
        exists|i: int| 0 <= i < self.entries@.len() && pair_key_is(self.entries@[i], a, d)
    }

    pub fn new() -> (r: PairLedger)
        ensures
            r.wf(),
            r.entries@.len() == 0,
            forall|a: Seq<char>, d: Seq<char>| r.amount_of(a, d) == 0,
    {
        PairLedger { entries: Vec::new() }
    }

    /// A row exists for a key exactly when the key's amount is non-zero.
    pub proof fn lemma_contains_iff_nonzero(self, a: Seq<char>, d: Seq<char>)
        requires
            self.wf(),
        ensures
            self.contains_key(a, d) <==> self.amount_of(a, d) > 0,
    {
        if self.contains_key(a, d) {
            let i = choose|i: int|
                0 <= i < self.entries@.len() && pair_key_is(self.entries@[i], a, d);
            lemma_amount_at_index(self.entries@, i);
        } else {
            lemma_amount_absent(self.entries@, a, d);
        }
    }

    fn position_of(&self, account_id: &String, denom: &String) -> (r: Option<usize>)
        ensures
            match r {
                Some(i) => i < self.entries@.len() && pair_key_is(
                    self.entries@[i as int],
                    account_id@,
                    denom@,
                ),
                None => !self.contains_key(account_id@, denom@),
            },
    {
        let n = self.entries.len();
        for i in 0..n
            invariant
                n == self.entries@.len(),
                forall|j: int| 0 <= j < i ==> !pair_key_is(self.entries@[j], account_id@, denom@),
        {
            if self.entries[i].account_id == *account_id && self.entries[i].denom == *denom {
                return Some(i);
            }
        }
        None
    }

    /// The amount the ledger holds for a key; zero when no row holds it.
    pub fn get_amount(&self, account_id: &String, denom: &String) -> (r: u128)
        requires
            self.wf(),
        ensures
            r == self.amount_of(account_id@, denom@),
    {
        match self.position_of(account_id, denom) {
            Some(i) => {
                proof {
                    lemma_amount_at_index(self.entries@, i as int);
                }
                self.entries[i].amount
            },
            None => {
                proof {
                    self.lemma_contains_iff_nonzero(account_id@, denom@);
                }
                0
            },
        }
    }

    /// Sets the amount under a key; a zero amount deletes the row.
    pub fn set_amount(&mut self, account_id: &String, denom: &String, new_amount: u128)
        requires
            old(self).wf(),
        ensures
            final(self).wf(),
            final(self).amount_of(account_id@, denom@) == new_amount,
            forall|a: Seq<char>, d: Seq<char>|
                !(a == account_id@ && d == denom@) ==> final(self).amount_of(a, d) == old(
                    self,
                ).amount_of(a, d),
            forall|d: Seq<char>|
                final(self).sum_of(d) == old(self).sum_of(d) + (if d == denom@ {
                    new_amount - old(self).amount_of(account_id@, denom@)
                } else {
                    0
                }),
    {
        let ghost s0 = self.entries@;
        match self.position_of(account_id, denom) {
            Some(i) => {
                proof {
                    lemma_amount_at_index(s0, i as int);
                }
                if new_amount == 0 {
                    self.entries.remove(i);
                    proof {
                        assert forall|a: Seq<char>, d: Seq<char>| true implies amount_in(
                            self.entries@,
                            a,
                            d,
                        ) == (if pair_key_is(s0[i as int], a, d) {
                            0u128
                        } else {
                            amount_in(s0, a, d)
                        }) by {
                            lemma_amount_remove(s0, i as int, a, d);
                        }
                        assert forall|d: Seq<char>| true implies sum_for(self.entries@, d)
                            == sum_for(s0, d) - (if s0[i as int].denom@ == d {
                            s0[i as int].amount as int
                        } else {
                            0
                        }) by {
                            lemma_sum_remove(s0, i as int, d);
                        }
                    }
                } else {
                    let e = PairEntry {
                        account_id: account_id.clone(),
                        denom: denom.clone(),
                        amount: new_amount,
                    };
                    self.entries[i] = e;
                    proof {
                        assert forall|a: Seq<char>, d: Seq<char>| true implies amount_in(
                            self.entries@,
                            a,
                            d,
                        ) == (if pair_key_is(self.entries@[i as int], a, d) {
                            new_amount
                        } else {
                            amount_in(s0, a, d)
                        }) by {
                            lemma_amount_update(s0, i as int, self.entries@[i as int], a, d);
                        }
                        assert forall|d: Seq<char>| true implies sum_for(self.entries@, d)
                            == sum_for(s0, d) + (if denom@ == d {
                            new_amount - s0[i as int].amount
                        } else {
                            0
                        }) by {
                            lemma_sum_update(s0, i as int, self.entries@[i as int], d);
                        }
                    }
                }
            },
            None => {
                proof {
                    self.lemma_contains_iff_nonzero(account_id@, denom@);
                }
                if new_amount > 0 {
                    let e = PairEntry {
                        account_id: account_id.clone(),
                        denom: denom.clone(),
                        amount: new_amount,
                    };
                    self.entries.push(e);
                    proof {
                        assert(self.entries@.drop_last() =~= s0);
                    }
                }
            },
        }
    }
}

/// The coins an account holds, in ledger order.
pub open spec fn account_coins_in(s: Seq<PairEntry>, a: Seq<char>) -> Seq<crate::types::Coin>
    decreases s.len(),
{
    if s.len() == 0 {
        Seq::empty()
    } else if s[0].account_id@ == a {
        seq![crate::types::Coin { denom: s[0].denom, amount: s[0].amount }] + account_coins_in(
            s.drop_first(),
            a,
        )
    } else {
        account_coins_in(s.drop_first(), a)
    }
}

pub proof fn lemma_pair_distinct_after_remove(s: Seq<PairEntry>, i: int)
    requires
        pair_keys_distinct(s),
        0 <= i < s.len(),
    ensures
        pair_keys_distinct(s.remove(i)),
{
    let t = s.remove(i);
    assert forall|i2: int, j2: int| 0 <= i2 < j2 < t.len() implies !(t[i2].account_id@
        == t[j2].account_id@ && t[i2].denom@ == t[j2].denom@) by {
        let oi = if i2 < i {
            i2
        } else {
            i2 + 1
        };
        let oj = if j2 < i {
            j2
        } else {
            j2 + 1
        };
        assert(t[i2] == s[oi] && t[j2] == s[oj]);
    }
}

impl PairLedger {
    /// The coins an account holds, in ledger order.
    pub open spec fn coins_of(self, a: Seq<char>) -> Seq<crate::types::Coin> {
        account_coins_in(self.entries@, a)
    }

    /// Removes every row of one account, handing back its coins in ledger
    /// order.
    pub fn drain_account(&mut self, account_id: &String) -> (coins: Vec<crate::types::Coin>)
        requires
            old(self).wf(),
        ensures
            final(self).wf(),
            coins@ == old(self).coins_of(account_id@),
            forall|d: Seq<char>| final(self).amount_of(account_id@, d) == 0,
            forall|a2: Seq<char>, d: Seq<char>|
                a2 != account_id@ ==> final(self).amount_of(a2, d) == old(self).amount_of(a2, d),
    {
        let ghost orig = self.entries@;
        let mut coins: Vec<crate::types::Coin> = Vec::new();
        let mut k: usize = 0;
        proof {
            assert(self.entries@.skip(0) =~= self.entries@);
            assert(Seq::<crate::types::Coin>::empty() + account_coins_in(orig, account_id@)
                =~= account_coins_in(orig, account_id@));
        }
        while k < self.entries.len()
            invariant
                self.wf(),
                k <= self.entries@.len(),
                forall|j: int| 0 <= j < k ==> self.entries@[j].account_id@ != account_id@,
                coins@ + account_coins_in(self.entries@.skip(k as int), account_id@)
                    == account_coins_in(orig, account_id@),
                forall|a2: Seq<char>, d: Seq<char>|
                    a2 != account_id@ ==> amount_in(self.entries@, a2, d) == amount_in(
                        orig,
                        a2,
                        d,
                    ),
            decreases self.entries@.len() - k,
        {
            let ghost cur = self.entries@;
            if self.entries[k].account_id == *account_id {
                let e = self.entries.remove(k);
                coins.push(crate::types::Coin { denom: e.denom, amount: e.amount });
                proof {
                    lemma_pair_distinct_after_remove(cur, k as int);
                    assert(account_coins_in(cur.skip(k as int), account_id@) == seq![
                        crate::types::Coin { denom: cur[k as int].denom, amount: cur[k as int].amount },
                    ] + account_coins_in(cur.skip(k as int).drop_first(), account_id@));
                    assert(cur.skip(k as int).drop_first() =~= self.entries@.skip(k as int));
                    assert(coins@ + account_coins_in(self.entries@.skip(k as int), account_id@)
                        =~= account_coins_in(orig, account_id@));
                    assert forall|a2: Seq<char>, d: Seq<char>| a2 != account_id@ implies amount_in(
                        self.entries@,
                        a2,
                        d,
                    ) == amount_in(orig, a2, d) by {
                        lemma_amount_remove(cur, k as int, a2, d);
                    }
                }
            } else {
                k = k + 1;
                proof {
                    assert(self.entries@.skip(k - 1).drop_first() =~= self.entries@.skip(k as int));
                    assert(self.entries@.skip(k - 1)[0] == self.entries@[k - 1]);
                    assert(account_coins_in(self.entries@.skip(k - 1), account_id@)
                        == account_coins_in(self.entries@.skip(k as int), account_id@));
                    assert(coins@ + account_coins_in(self.entries@.skip(k as int), account_id@)
                        =~= account_coins_in(orig, account_id@));
                }
            }
        }
        proof {
            assert(self.entries@.skip(k as int) =~= Seq::<PairEntry>::empty());
            assert(coins@ =~= account_coins_in(orig, account_id@));
            assert forall|d: Seq<char>| true implies amount_in(self.entries@, account_id@, d)
                == 0 by {
                lemma_amount_absent(self.entries@, account_id@, d);
            }
        }
        coins
    }
}

/// One row of a denom-keyed ledger.
#[derive(Debug, Clone)]
pub struct DenomEntry {
    pub denom: String,
    pub amount: u128,
}

pub open spec fn denom_keys_distinct(s: Seq<DenomEntry>) -> bool {
    forall|i: int, j: int| 0 <= i < j < s.len() ==> s[i].denom@ != s[j].denom@
}

/// The amount a denom holds: zero when no row holds the denom.
pub open spec fn denom_amount_in(s: Seq<DenomEntry>, d: Seq<char>) -> u128
    decreases s.len(),
{
    if s.len() == 0 {
        0
    } else if s.last().denom@ == d {
        s.last().amount
    } else {
        denom_amount_in(s.drop_last(), d)
    }
}

pub proof fn lemma_denom_amount_at_index(s: Seq<DenomEntry>, i: int)
    requires
        denom_keys_distinct(s),
        0 <= i < s.len(),
    ensures
        denom_amount_in(s, s[i].denom@) == s[i].amount,
    decreases s.len(),
{
    if i < s.len() - 1 {
        lemma_denom_amount_at_index(s.drop_last(), i);
    }
}

pub proof fn lemma_denom_amount_absent(s: Seq<DenomEntry>, d: Seq<char>)
    requires
        forall|i: int| 0 <= i < s.len() ==> s[i].denom@ != d,
    ensures
        denom_amount_in(s, d) == 0,
    decreases s.len(),
{
    if s.len() > 0 {
        lemma_denom_amount_absent(s.drop_last(), d);
    }
}

pub proof fn lemma_denom_amount_update(s: Seq<DenomEntry>, i: int, e: DenomEntry, d: Seq<char>)
    requires
        denom_keys_distinct(s),
        0 <= i < s.len(),
        e.denom@ == s[i].denom@,
    ensures
        denom_amount_in(s.update(i, e), d) == if e.denom@ == d {
            e.amount
        } else {
            denom_amount_in(s, d)
        },
    decreases s.len(),
{
    let t = s.update(i, e);
    if i == s.len() - 1 {
        assert(t.drop_last() =~= s.drop_last());
        if e.denom@ == d {
        } else if s.last().denom@ == d {
            lemma_denom_amount_absent(s.drop_last(), d);
        }
    } else {
        assert(t.last() == s.last());
        assert(t.drop_last() =~= s.drop_last().update(i, e));
        lemma_denom_amount_update(s.drop_last(), i, e, d);
    }
}

/// A ledger from denom to an amount; a row may hold zero, and an absent denom
/// means zero.
#[derive(Debug, Clone)]
pub struct DenomLedger {
    pub entries: Vec<DenomEntry>,
}

impl DenomLedger {
    pub open spec fn wf(self) -> bool {
        denom_keys_distinct(self.entries@)
    }

    pub open spec fn amount_of(self, d: Seq<char>) -> u128 {
        denom_amount_in(self.entries@, d)
    }

    pub fn new() -> (r: DenomLedger)
        ensures
            r.wf(),
            r.entries@.len() == 0,
            forall|d: Seq<char>| r.amount_of(d) == 0,
    {
        DenomLedger { entries: Vec::new() }
    }

    fn position_of(&self, denom: &String) -> (r: Option<usize>)
        ensures
            match r {
                Some(i) => i < self.entries@.len() && self.entries@[i as int].denom@ == denom@,
                None => forall|i: int|
                    0 <= i < self.entries@.len() ==> self.entries@[i].denom@ != denom@,
            },
    {
        let n = self.entries.len();
        for i in 0..n
            invariant
                n == self.entries@.len(),
                forall|j: int| 0 <= j < i ==> self.entries@[j].denom@ != denom@,
        {
            if self.entries[i].denom == *denom {
                return Some(i);
            }
        }
        None
    }

    /// The amount the ledger holds for a denom; zero when no row holds it.
    pub fn get_amount(&self, denom: &String) -> (r: u128)
        requires
            self.wf(),
        ensures
            r == self.amount_of(denom@),
    {
        match self.position_of(denom) {
            Some(i) => {
                proof {
                    lemma_denom_amount_at_index(self.entries@, i as int);
                }
                self.entries[i].amount
            },
            None => {
                proof {
                    lemma_denom_amount_absent(self.entries@, denom@);
                }
                0
            },
        }
    }

    /// Sets the amount under a denom; the row stays even at zero.
    pub fn set_amount(&mut self, denom: &String, new_amount: u128)
        requires
            old(self).wf(),
        ensures
            final(self).wf(),
            final(self).amount_of(denom@) == new_amount,
            forall|d: Seq<char>|
                d != denom@ ==> final(self).amount_of(d) == old(self).amount_of(d),
    {
        let ghost s0 = self.entries@;
        match self.position_of(denom) {
            Some(i) => {
                let e = DenomEntry { denom: denom.clone(), amount: new_amount };
                self.entries[i] = e;
                proof {
                    assert forall|d: Seq<char>| true implies denom_amount_in(self.entries@, d)
                        == (if denom@ == d {
                        new_amount
                    } else {
                        denom_amount_in(s0, d)
                    }) by {
                        lemma_denom_amount_update(s0, i as int, self.entries@[i as int], d);
                    }
                }
            },
            None => {
                let e = DenomEntry { denom: denom.clone(), amount: new_amount };
                self.entries.push(e);
                proof {
                    assert(self.entries@.drop_last() =~= s0);
                }
            },
        }
    }
}

} // verus!
