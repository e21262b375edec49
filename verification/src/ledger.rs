//! Account ledger: per-account balances and the two treasury modes.
//!
//! In external-token mode the machine only counts the funds collected
//! from sales of a configured token. In self-issued mode it keeps a full
//! balance ledger together with a total supply bounded by a cap; the sum
//! of all balances always equals the total supply.

use vstd::prelude::*;

use crate::order::{bytes_eq, copy_bytes};

verus! {

/// One account's recorded balance.
pub struct BalanceEntry {
    pub addr: Vec<u8>,
    pub amount: u128,
}

/// Sum of the recorded amounts.
pub open spec fn sum_amounts(s: Seq<BalanceEntry>) -> int
    decreases s.len(),
{
    if s.len() == 0 {
        0
    } else {
        s[0].amount + sum_amounts(s.drop_first())
    }
}

pub proof fn lemma_sum_nonneg(s: Seq<BalanceEntry>)
    ensures
        sum_amounts(s) >= 0,
    decreases s.len(),
{
    if s.len() > 0 {
        lemma_sum_nonneg(s.drop_first());
    }
}

pub proof fn lemma_sum_update(s: Seq<BalanceEntry>, i: int, e: BalanceEntry)
    requires
        0 <= i < s.len(),
    ensures
        sum_amounts(s.update(i, e)) == sum_amounts(s) - s[i].amount + e.amount,
    decreases s.len(),
{
    let t = s.update(i, e);
    if i == 0 {
        assert(t[0] == e);
        assert(t.drop_first() =~= s.drop_first());
    } else {
        assert(t[0] == s[0]);
        assert(t.drop_first() =~= s.drop_first().update(i - 1, e));
        lemma_sum_update(s.drop_first(), i - 1, e);
        assert(s.drop_first()[i - 1] == s[i]);
    }
}

pub proof fn lemma_sum_push(s: Seq<BalanceEntry>, e: BalanceEntry)
    ensures
        sum_amounts(s.push(e)) == sum_amounts(s) + e.amount,
    decreases s.len(),
{
    let t = s.push(e);
    if s.len() == 0 {
        assert(t[0] == e);
        assert(t.drop_first() =~= Seq::<BalanceEntry>::empty());
        assert(sum_amounts(Seq::<BalanceEntry>::empty()) == 0);
        assert(sum_amounts(s) == 0);
    } else {
        assert(t[0] == s[0]);
        assert(t.drop_first() =~= s.drop_first().push(e));
        lemma_sum_push(s.drop_first(), e);
    }
}

/// Every single balance is bounded by the sum of all of them.
pub proof fn lemma_entry_le_sum(s: Seq<BalanceEntry>, i: int)
    requires
        0 <= i < s.len(),
    ensures
        s[i].amount <= sum_amounts(s),
    decreases s.len(),
{
    if i == 0 {
        lemma_sum_nonneg(s.drop_first());
    } else {
        lemma_entry_le_sum(s.drop_first(), i - 1);
        assert(s.drop_first()[i - 1] == s[i]);
    }
}

/// The balance ledger: one entry per account.
pub struct Balances {
    pub entries: Vec<BalanceEntry>,
}

impl Balances {
    /// Ledger invariant: each account occurs at most once.
    pub open spec fn uniq(self) -> bool {
        forall|i: int, j: int|
            #![trigger self.entries@[i], self.entries@[j]]
            0 <= i < j < self.entries@.len() ==> self.entries@[i].addr@ != self.entries@[j].addr@
    }

    pub open spec fn has(self, a: Seq<u8>) -> bool {
        exists|i: int| 0 <= i < self.entries@.len() && (#[trigger] self.entries@[i]).addr@ == a
    }

    pub open spec fn index_of(self, a: Seq<u8>) -> int {
        choose|i: int| 0 <= i < self.entries@.len() && (#[trigger] self.entries@[i]).addr@ == a
    }

    /// Recorded balance of `a`; zero for an account never seen.
    pub open spec fn balance_of(self, a: Seq<u8>) -> u128 {
        if self.has(a) {
            self.entries@[self.index_of(a)].amount
        } else {
            0
        }
    }

    /// Sum of all recorded balances.
    pub open spec fn total(self) -> int {
        sum_amounts(self.entries@)
    }

    /// In a unique ledger each account determines its entry.
    pub proof fn lemma_at_index(self, i: int)
        requires
            self.uniq(),
            0 <= i < self.entries@.len(),
        ensures
            self.has(self.entries@[i].addr@),
            self.index_of(self.entries@[i].addr@) == i,
            self.balance_of(self.entries@[i].addr@) == self.entries@[i].amount,
    {
        let a = self.entries@[i].addr@;
        assert(self.has(a));
        let j = self.index_of(a);
        if j != i {
            assert(false);
        }
    }

    pub proof fn lemma_balance_le_total(self, a: Seq<u8>)
        requires
            self.uniq(),
        ensures
            self.balance_of(a) <= self.total(),
    {
        if self.has(a) {
            lemma_entry_le_sum(self.entries@, self.index_of(a));
        } else {
            lemma_sum_nonneg(self.entries@);
        }
    }

    fn find(&self, addr: &Vec<u8>) -> (r: Option<usize>)
        ensures
            match r {
                Some(i) => i < self.entries@.len() && self.entries@[i as int].addr@ == addr@,
                None => !self.has(addr@),
            },
    {
        let mut i: usize = 0;
        while i < self.entries.len()
            invariant
                i <= self.entries@.len(),
                forall|k: int| 0 <= k < i ==> (#[trigger] self.entries@[k]).addr@ != addr@,
            decreases self.entries@.len() - i,
        {
            if bytes_eq(&self.entries[i].addr, addr) {
                return Some(i);
            }
            i += 1;
        }
        None
    }

    /// Reads the recorded balance of `addr`.
    pub fn balance(&self, addr: &Vec<u8>) -> (r: u128)
        requires
            self.uniq(),
        ensures
            r == self.balance_of(addr@),
    {
        match self.find(addr) {
            Some(i) => {
                proof {
                    self.lemma_at_index(i as int);
                }
                self.entries[i].amount
            },
            None => 0,
        }
    }

    /// Adds `amount` to the balance of `addr`, creating the account if
    /// it was never seen.
    pub fn credit(&mut self, addr: &Vec<u8>, amount: u128)
        requires
            old(self).uniq(),
            old(self).total() + amount <= u128::MAX,
        ensures
            final(self).uniq(),
            final(self).total() == old(self).total() + amount,
            final(self).balance_of(addr@) == old(self).balance_of(addr@) + amount,
            forall|b: Seq<u8>| b != addr@ ==> final(self).balance_of(b) == old(self).balance_of(b),
    {
        let ghost s0 = self.entries@;
        match self.find(addr) {
            Some(i) => {
                proof {
                    lemma_entry_le_sum(s0, i as int);
                    self.lemma_at_index(i as int);
                }
                let ghost e0 = s0[i as int];
                let e = &mut self.entries[i];
                let a0 = e.amount;
                e.amount = a0 + amount;
                proof {
                    let s = self.entries@;
                    assert(s == s0.update(i as int, BalanceEntry { addr: e0.addr, amount: (e0.amount + amount) as u128 }));
                    lemma_sum_update(s0, i as int, s[i as int]);
                    assert forall|k: int, j: int|
                        #![trigger s[k], s[j]]
                        0 <= k < j < s.len() implies s[k].addr@ != s[j].addr@ by {
                        assert(s[k].addr@ == s0[k].addr@);
                        assert(s[j].addr@ == s0[j].addr@);
                    }
                    self.lemma_at_index(i as int);
                    assert forall|b: Seq<u8>| b != addr@ implies self.balance_of(b) == old(
                        self,
                    ).balance_of(b) by {
                        lemma_balance_same(*old(self), *self, i as int, b);
                    }
                }
            },
            None => {
                let entry = BalanceEntry { addr: copy_bytes(addr), amount };
                self.entries.push(entry);
                proof {
                    let s = self.entries@;
                    lemma_sum_push(s0, s[s.len() - 1]);
                    assert forall|k: int, j: int|
                        #![trigger s[k], s[j]]
                        0 <= k < j < s.len() implies s[k].addr@ != s[j].addr@ by {
                        if j == s.len() - 1 {
                            assert(s[k] == s0[k]);
                        } else {
                            assert(s[k] == s0[k]);
                            assert(s[j] == s0[j]);
                        }
                    }
                    self.lemma_at_index(s.len() - 1);
                    assert(old(self).balance_of(addr@) == 0);
                    assert forall|b: Seq<u8>| b != addr@ implies self.balance_of(b) == old(
                        self,
                    ).balance_of(b) by {
                        lemma_balance_push_other(*old(self), *self, b);
                    }
                }
            },
        }
    }

    /// Removes `amount` from the balance of `addr`.
    pub fn debit(&mut self, addr: &Vec<u8>, amount: u128)
        requires
            old(self).uniq(),
            amount <= old(self).balance_of(addr@),
        ensures
            final(self).uniq(),
            final(self).total() == old(self).total() - amount,
            final(self).balance_of(addr@) == old(self).balance_of(addr@) - amount,
            forall|b: Seq<u8>| b != addr@ ==> final(self).balance_of(b) == old(self).balance_of(b),
    {
        let ghost s0 = self.entries@;
        match self.find(addr) {
            Some(i) => {
                proof {
                    self.lemma_at_index(i as int);
                }
                let ghost e0 = s0[i as int];
                let e = &mut self.entries[i];
                let a0 = e.amount;
                e.amount = a0 - amount;
                proof {
                    let s = self.entries@;
                    assert(s == s0.update(i as int, BalanceEntry { addr: e0.addr, amount: (e0.amount - amount) as u128 }));
                    lemma_sum_update(s0, i as int, s[i as int]);
                    assert forall|k: int, j: int|
                        #![trigger s[k], s[j]]
                        0 <= k < j < s.len() implies s[k].addr@ != s[j].addr@ by {
                        assert(s[k].addr@ == s0[k].addr@);
                        assert(s[j].addr@ == s0[j].addr@);
                    }
                    self.lemma_at_index(i as int);
                    assert forall|b: Seq<u8>| b != addr@ implies self.balance_of(b) == old(
                        self,
                    ).balance_of(b) by {
                        lemma_balance_same(*old(self), *self, i as int, b);
                    }
                }
            },
            None => {
                proof {
                    assert(old(self).balance_of(addr@) == 0);
                }
            },
        }
    }
}

/// Helper: an update at index `i` leaves every other account's balance
/// unchanged, provided the address at `i` is untouched.
proof fn lemma_balance_same(pre: Balances, post: Balances, i: int, b: Seq<u8>)
    requires
        pre.uniq(),
        post.uniq(),
        0 <= i < pre.entries@.len(),
        post.entries@.len() == pre.entries@.len(),
        forall|k: int| 0 <= k < pre.entries@.len() && k != i ==> post.entries@[k] == pre.entries@[k],
        post.entries@[i].addr@ == pre.entries@[i].addr@,
        b != pre.entries@[i].addr@,
    ensures
        post.balance_of(b) == pre.balance_of(b),
{
    if pre.has(b) {
        let j = pre.index_of(b);
        pre.lemma_at_index(j);
        assert(post.entries@[j].addr@ == b);
        post.lemma_at_index(j);
    } else {
        assert forall|k: int| 0 <= k < post.entries@.len() implies (#[trigger] post.entries@[k]).addr@
            != b by {
            assert(post.entries@[k].addr@ == pre.entries@[k].addr@);
        }
        assert(!post.has(b));
    }
}

/// Helper: a push for a fresh account leaves every other account's
/// balance unchanged.
proof fn lemma_balance_push_other(pre: Balances, post: Balances, b: Seq<u8>)
    requires
        pre.uniq(),
        post.uniq(),
        post.entries@.len() == pre.entries@.len() + 1,
        forall|k: int| 0 <= k < pre.entries@.len() ==> post.entries@[k] == pre.entries@[k],
        b != post.entries@[post.entries@.len() - 1].addr@,
    ensures
        post.balance_of(b) == pre.balance_of(b),
{
    if pre.has(b) {
        let j = pre.index_of(b);
        pre.lemma_at_index(j);
        assert(post.entries@[j].addr@ == b);
        post.lemma_at_index(j);
    } else {
        assert forall|k: int| 0 <= k < post.entries@.len() implies (#[trigger] post.entries@[k]).addr@
            != b by {
            if k < pre.entries@.len() {
                assert(post.entries@[k].addr@ == pre.entries@[k].addr@);
            }
        }
        assert(!post.has(b));
    }
}

/// The treasury: what the machine owns, in one of two modes.
pub enum Treasury {
    /// Sales are paid in an external token; the machine only counts what
    /// it has collected.
    External { token_addr: Vec<u8>, collected: u128 },
    /// The machine issues its own token and keeps the full ledger.
    SelfIssued { balances: Balances, total_supply: u128, supply_cap: u128 },
}

impl Treasury {
    /// Total supply of the self-issued token; zero in external mode.
    pub open spec fn spec_total_supply(self) -> u128 {
        match self {
            Treasury::External { .. } => 0,
            Treasury::SelfIssued { total_supply, .. } => total_supply,
        }
    }

    /// Supply cap of the self-issued token; zero in external mode.
    pub open spec fn spec_supply_cap(self) -> u128 {
        match self {
            Treasury::External { .. } => 0,
            Treasury::SelfIssued { supply_cap, .. } => supply_cap,
        }
    }

    /// Recorded balance of `a` in self-issued mode; zero in external
    /// mode.
    pub open spec fn spec_balance(self, a: Seq<u8>) -> u128 {
        match self {
            Treasury::External { .. } => 0,
            Treasury::SelfIssued { balances, .. } => balances.balance_of(a),
        }
    }

    /// Treasury invariant. In self-issued mode the balances sum exactly
    /// to the total supply, which never exceeds the cap.
    pub open spec fn wf(self) -> bool {
        match self {
            Treasury::External { token_addr, .. } => token_addr@.len() > 0,
            Treasury::SelfIssued { balances, total_supply, supply_cap } => {
                &&& balances.uniq()
                &&& balances.total() == total_supply
                &&& total_supply <= supply_cap
            },
        }
    }
}

} // verus!
