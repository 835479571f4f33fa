//! A minimal model of the stable-token ledger.
//!
//! The real token ledger is an external collaborator; the settlement
//! engine only needs balances, deposits, withdrawals and the total
//! supply. This model keeps the balances as an association vector with
//! unique account keys, so the engine's effects on it — and, above all,
//! the absence of any effect when a step fails — are verified facts.

use crate::error::Error;
use vstd::prelude::*;

verus! {

/// Account balances plus the circulating total supply.
#[derive(Clone, Debug)]
pub struct Ledger {
    pub accounts: Vec<(String, u128)>,
    pub total_supply: u128,
}

/// Each account occurs at most once.
pub open spec fn keys_unique(s: Seq<(String, u128)>) -> bool {
    forall|i: int, j: int| 0 <= i < j < s.len() ==> s[i].0@ != s[j].0@
}

/// The balance recorded for `key`, scanning from the front.
pub open spec fn find_spec(s: Seq<(String, u128)>, key: Seq<char>) -> Option<u128>
    decreases s.len(),
{
    if s.len() == 0 {
        None
    } else if s[0].0@ == key {
        Some(s[0].1)
    } else {
        find_spec(s.drop_first(), key)
    }
}

/// If `key` sits at position `i` and nowhere earlier, the scan finds it.
pub proof fn lemma_find_at(s: Seq<(String, u128)>, key: Seq<char>, i: int)
    requires
        0 <= i < s.len(),
        s[i].0@ == key,
        forall|j: int| 0 <= j < i ==> s[j].0@ != key,
    ensures
        find_spec(s, key) == Some(s[i].1),
    decreases i,
{
    if i == 0 {
    } else {
        assert(s.drop_first()[i - 1] == s[i]);
        assert(forall|j: int| 0 <= j < i - 1 ==> s.drop_first()[j] == s[j + 1]);
        lemma_find_at(s.drop_first(), key, i - 1);
    }
}

/// If no position holds `key`, the scan finds nothing.
pub proof fn lemma_find_none(s: Seq<(String, u128)>, key: Seq<char>)
    requires
        forall|j: int| 0 <= j < s.len() ==> s[j].0@ != key,
    ensures
        find_spec(s, key).is_none(),
    decreases s.len(),
{
    if s.len() > 0 {
        assert(forall|j: int| 0 <= j < s.drop_first().len() ==> s.drop_first()[j] == s[j + 1]);
        lemma_find_none(s.drop_first(), key);
    }
}

/// Overwriting position `i` with an entry for another account does not
/// change what the scan finds for `key`.
pub proof fn lemma_find_update_other(
    s: Seq<(String, u128)>,
    i: int,
    e: (String, u128),
    key: Seq<char>,
)
    requires
        0 <= i < s.len(),
        s[i].0@ != key,
        e.0@ != key,
    ensures
        find_spec(s.update(i, e), key) == find_spec(s, key),
    decreases i,
{
    let s2 = s.update(i, e);
    if i == 0 {
        assert(s2.drop_first() =~= s.drop_first());
    } else {
        assert(s2[0] == s[0]);
        assert(s2.drop_first() =~= s.drop_first().update(i - 1, e));
        if s[0].0@ != key {
            lemma_find_update_other(s.drop_first(), i - 1, e, key);
        }
    }
}

/// Appending an entry for another account does not change what the
/// scan finds for `key`.
pub proof fn lemma_find_push_other(s: Seq<(String, u128)>, e: (String, u128), key: Seq<char>)
    requires
        e.0@ != key,
    ensures
        find_spec(s.push(e), key) == find_spec(s, key),
    decreases s.len(),
{
    if s.len() == 0 {
        assert(s.push(e)[0] == e);
        assert(s.push(e).drop_first() =~= Seq::<(String, u128)>::empty());
        assert(find_spec(Seq::<(String, u128)>::empty(), key).is_none());
        assert(find_spec(s.push(e), key) == find_spec(s.push(e).drop_first(), key));
    } else {
        assert(s.push(e)[0] == s[0]);
        assert(s.push(e).drop_first() =~= s.drop_first().push(e));
        if s[0].0@ != key {
            lemma_find_push_other(s.drop_first(), e, key);
            assert(find_spec(s.push(e), key) == find_spec(s.drop_first().push(e), key));
            assert(find_spec(s, key) == find_spec(s.drop_first(), key));
        }
    }
}

impl Ledger {
    pub open spec fn wf(&self) -> bool {
        keys_unique(self.accounts@)
    }

    /// The balance of `key`: what the ledger records, or zero.
    pub open spec fn balance_spec(&self, key: Seq<char>) -> u128 {
        match find_spec(self.accounts@, key) {
            Some(v) => v,
            None => 0,
        }
    }

    /// An empty ledger with a zero-balance entry for `owner`.
    pub fn new(owner: String) -> (r: Self)
        ensures
            r.wf(),
            r.total_supply == 0,
            forall|k: Seq<char>| r.balance_spec(k) == 0,
            r.accounts@.len() == 1,
            r.accounts@[0].0@ == owner@,
    {
        let mut accounts: Vec<(String, u128)> = Vec::new();
        accounts.push((owner, 0));
        proof {
            assert forall|k: Seq<char>|
                #![trigger find_spec(accounts@, k)]
                (match find_spec(accounts@, k) {
                    Some(v) => v,
                    None => 0u128,
                }) == 0u128 by {
                if accounts@[0].0@ == k {
                    lemma_find_at(accounts@, k, 0);
                } else {
                    lemma_find_none(accounts@, k);
                }
            }
        }
        Ledger { accounts, total_supply: 0 }
    }

    /// The position of `account` in the vector, when it is registered.
    fn find_index(&self, account: &String) -> (r: Option<usize>)
        ensures
            match r {
                Some(i) => {
                    &&& i < self.accounts@.len()
                    &&& self.accounts@[i as int].0@ == account@
                    &&& forall|j: int| 0 <= j < i ==> self.accounts@[j].0@ != account@
                    &&& find_spec(self.accounts@, account@) == Some(self.accounts@[i as int].1)
                },
                None => {
                    &&& forall|j: int|
                        0 <= j < self.accounts@.len() ==> self.accounts@[j].0@ != account@
                    &&& find_spec(self.accounts@, account@).is_none()
                },
            },
    {
        let mut i: usize = 0;
        while i < self.accounts.len()
            invariant
                i <= self.accounts@.len(),
                forall|j: int| 0 <= j < i ==> self.accounts@[j].0@ != account@,
            decreases self.accounts@.len() - i,
        {
            if self.accounts[i].0 == *account {
                proof {
                    lemma_find_at(self.accounts@, account@, i as int);
                }
                return Some(i);
            }
            i = i + 1;
        }
        proof {
            lemma_find_none(self.accounts@, account@);
        }
        None
    }

    pub fn balance_of(&self, account: &String) -> (r: u128)
        ensures
            r == self.balance_spec(account@),
    {
        match self.find_index(account) {
            Some(i) => self.accounts[i].1,
            None => 0,
        }
    }

    /// Credits `amount` to `account` and grows the total supply by the
    /// same quantity; fails — changing nothing — only on 128-bit overflow
    /// of either.
    pub fn internal_deposit(&mut self, account: &String, amount: u128) -> (r: Result<(), Error>)
        requires
            old(self).wf(),
        ensures
            final(self).wf(),
            match r {
                Ok(()) => {
                    &&& old(self).balance_spec(account@) + amount <= u128::MAX
                    &&& old(self).total_supply + amount <= u128::MAX
                    &&& final(self).balance_spec(account@) == old(self).balance_spec(account@)
                        + amount
                    &&& forall|k: Seq<char>|
                        k != account@ ==> final(self).balance_spec(k) == old(self).balance_spec(k)
                    &&& final(self).total_supply == old(self).total_supply + amount
                },
                Err(e) => {
                    &&& e == Error::Overflow
                    &&& old(self).balance_spec(account@) + amount > u128::MAX || old(
                        self,
                    ).total_supply + amount > u128::MAX
                    &&& *final(self) == *old(self)
                },
            },
    {
        let new_supply = match self.total_supply.checked_add(amount) {
            Some(s) => s,
            None => {
                return Err(Error::Overflow);
            },
        };
        match self.find_index(account) {
            Some(i) => {
                let old_balance = self.accounts[i].1;
                let new_balance = match old_balance.checked_add(amount) {
                    Some(b) => b,
                    None => {
                        return Err(Error::Overflow);
                    },
                };
                let key = self.accounts[i].0.clone();
                self.accounts.set(i, (key, new_balance));
                self.total_supply = new_supply;
                proof {
                    let s_old = old(self).accounts@;
                    let s_new = self.accounts@;
                    assert(s_new =~= s_old.update(i as int, s_new[i as int]));
                    assert(s_new[i as int].0@ == account@);
                    lemma_find_at(s_new, account@, i as int);
                    assert forall|k: Seq<char>|
                        #![trigger find_spec(s_new, k)]
                        k != account@ implies (match find_spec(s_new, k) {
                        Some(v) => v,
                        None => 0u128,
                    }) == (match find_spec(s_old, k) {
                        Some(v) => v,
                        None => 0u128,
                    }) by {
                        lemma_find_update_other(s_old, i as int, s_new[i as int], k);
                    }
                }
                Ok(())
            },
            None => {
                let new_balance = amount;
                self.accounts.push((account.clone(), new_balance));
                self.total_supply = new_supply;
                proof {
                    let s_old = old(self).accounts@;
                    let s_new = self.accounts@;
                    let e = s_new[s_new.len() - 1];
                    assert(s_new =~= s_old.push(e));
                    assert(e.0@ == account@);
                    lemma_find_at(s_new, account@, s_new.len() - 1);
                    assert forall|k: Seq<char>|
                        #![trigger find_spec(s_new, k)]
                        k != account@ implies (match find_spec(s_new, k) {
                        Some(v) => v,
                        None => 0u128,
                    }) == (match find_spec(s_old, k) {
                        Some(v) => v,
                        None => 0u128,
                    }) by {
                        lemma_find_push_other(s_old, e, k);
                    }
                }
                Ok(())
            },
        }
    }

    /// Debits `amount` from `account` and shrinks the total supply by
    /// the same quantity; fails — changing nothing — when the balance
    /// cannot cover the debit, or when the supply would underflow.
    pub fn internal_withdraw(&mut self, account: &String, amount: u128) -> (r: Result<(), Error>)
        requires
            old(self).wf(),
        ensures
            final(self).wf(),
            match r {
                Ok(()) => {
                    &&& amount <= old(self).balance_spec(account@)
                    &&& amount <= old(self).total_supply
                    &&& final(self).balance_spec(account@) == old(self).balance_spec(account@)
                        - amount
                    &&& forall|k: Seq<char>|
                        k != account@ ==> final(self).balance_spec(k) == old(self).balance_spec(k)
                    &&& final(self).total_supply == old(self).total_supply - amount
                },
                Err(e) => {
                    &&& *final(self) == *old(self)
                    &&& if amount > old(self).balance_spec(account@) {
                        e == Error::InsufficientBalance
                    } else {
                        e == Error::Overflow && amount > old(self).total_supply
                    }
                },
            },
    {
        match self.find_index(account) {
            Some(i) => {
                let old_balance = self.accounts[i].1;
                if amount > old_balance {
                    return Err(Error::InsufficientBalance);
                }
                if amount > self.total_supply {
                    return Err(Error::Overflow);
                }
                let key = self.accounts[i].0.clone();
                self.accounts.set(i, (key, old_balance - amount));
                self.total_supply = self.total_supply - amount;
                proof {
                    let s_old = old(self).accounts@;
                    let s_new = self.accounts@;
                    assert(s_new =~= s_old.update(i as int, s_new[i as int]));
                    assert(s_new[i as int].0@ == account@);
                    lemma_find_at(s_new, account@, i as int);
                    assert forall|k: Seq<char>|
                        #![trigger find_spec(s_new, k)]
                        k != account@ implies (match find_spec(s_new, k) {
                        Some(v) => v,
                        None => 0u128,
                    }) == (match find_spec(s_old, k) {
                        Some(v) => v,
                        None => 0u128,
                    }) by {
                        lemma_find_update_other(s_old, i as int, s_new[i as int], k);
                    }
                }
                Ok(())
            },
            None => {
                if amount > 0 {
                    return Err(Error::InsufficientBalance);
                }
                if amount > self.total_supply {
                    return Err(Error::Overflow);
                }
                Ok(())
            },
        }
    }
}

} // verus!
