//! Catalog state: beverage records keyed by name.
//!
//! The catalog is kept as a vector of entries sorted in strict
//! lexicographic order of their names, so every name occurs at most once
//! and range queries read a contiguous block. The well-formedness
//! predicate carries the stock and price invariants of every entry.

use vstd::prelude::*;

use crate::ledger::Treasury;
use crate::order::{bytes_eq, bytes_lt, lemma_lex_lt_irreflexive, lemma_lex_lt_total,
    lemma_lex_lt_transitive, lex_le, lex_lt};

verus! {

/// Largest stock a single beverage may ever hold.
pub const MAX_AMOUNT: u64 = 50;

/// Stock and unit price of one catalog entry.
#[derive(Clone, Copy, Debug, PartialEq, Eq, Structural)]
pub struct BeverageInfo {
    pub amount: u64,
    pub price: u128,
}

impl BeverageInfo {
    /// Invariant of a single record: bounded stock, positive price.
    pub open spec fn valid(self) -> bool {
        self.amount <= MAX_AMOUNT && self.price > 0
    }
}

/// A named catalog entry.
pub struct Beverage {
    pub name: Vec<u8>,
    pub info: BeverageInfo,
}

/// A well-formed entry: a non-empty name and a valid record.
pub open spec fn entry_ok(b: Beverage) -> bool {
    b.name@.len() > 0 && b.info.valid()
}

/// Entries are in strictly ascending name order.
pub open spec fn sorted(s: Seq<Beverage>) -> bool {
    forall|i: int, j: int|
        #![trigger s[i], s[j]]
        0 <= i < j < s.len() ==> lex_lt(s[i].name@, s[j].name@)
}

/// Length of the maximal prefix of `s` whose names come strictly before
/// `n`; on a sorted sequence this is where `n` would be inserted.
pub open spec fn cut_lt(s: Seq<Beverage>, n: Seq<u8>) -> int
    decreases s.len(),
{
    if s.len() == 0 {
        0
    } else if lex_lt(s[0].name@, n) {
        1 + cut_lt(s.drop_first(), n)
    } else {
        0
    }
}

/// Length of the maximal prefix of `s` whose names are at most `c`; on a
/// sorted sequence this is where a scan strictly after the cursor `c`
/// starts.
pub open spec fn cut_le(s: Seq<Beverage>, c: Seq<u8>) -> int
    decreases s.len(),
{
    if s.len() == 0 {
        0
    } else if lex_le(s[0].name@, c) {
        1 + cut_le(s.drop_first(), c)
    } else {
        0
    }
}

pub proof fn lemma_sorted_drop_first(s: Seq<Beverage>)
    requires
        sorted(s),
        s.len() > 0,
    ensures
        sorted(s.drop_first()),
{
    let t = s.drop_first();
    assert forall|i: int, j: int| 0 <= i < j < t.len() implies lex_lt(
        (#[trigger] t[i]).name@,
        (#[trigger] t[j]).name@,
    ) by {
        assert(t[i] == s[i + 1]);
        assert(t[j] == s[j + 1]);
    }
}

/// On a sorted sequence, `cut_lt` splits it into the entries strictly
/// before `n` and the rest.
pub proof fn lemma_cut_lt_char(s: Seq<Beverage>, n: Seq<u8>)
    requires
        sorted(s),
    ensures
        0 <= cut_lt(s, n) <= s.len(),
        forall|i: int| 0 <= i < cut_lt(s, n) ==> lex_lt((#[trigger] s[i]).name@, n),
        forall|i: int| cut_lt(s, n) <= i < s.len() ==> !lex_lt((#[trigger] s[i]).name@, n),
    decreases s.len(),
{
    if s.len() > 0 {
        let t = s.drop_first();
        lemma_sorted_drop_first(s);
        lemma_cut_lt_char(t, n);
        if lex_lt(s[0].name@, n) {
            assert forall|i: int| 0 <= i < cut_lt(s, n) implies lex_lt((#[trigger] s[i]).name@, n) by {
                if i > 0 {
                    assert(s[i] == t[i - 1]);
                }
            }
            assert forall|i: int| cut_lt(s, n) <= i < s.len() implies !lex_lt(
                (#[trigger] s[i]).name@,
                n,
            ) by {
                assert(s[i] == t[i - 1]);
            }
        } else {
            assert forall|i: int| 0 <= i < s.len() implies !lex_lt((#[trigger] s[i]).name@, n) by {
                if i > 0 && lex_lt(s[i].name@, n) {
                    lemma_lex_lt_transitive(s[0].name@, s[i].name@, n);
                }
            }
        }
    }
}

/// On a sorted sequence, `cut_le` splits it into the entries at most `c`
/// and the rest.
pub proof fn lemma_cut_le_char(s: Seq<Beverage>, c: Seq<u8>)
    requires
        sorted(s),
    ensures
        0 <= cut_le(s, c) <= s.len(),
        forall|i: int| 0 <= i < cut_le(s, c) ==> lex_le((#[trigger] s[i]).name@, c),
        forall|i: int| cut_le(s, c) <= i < s.len() ==> !lex_le((#[trigger] s[i]).name@, c),
    decreases s.len(),
{
    if s.len() > 0 {
        let t = s.drop_first();
        lemma_sorted_drop_first(s);
        lemma_cut_le_char(t, c);
        if lex_le(s[0].name@, c) {
            assert forall|i: int| 0 <= i < cut_le(s, c) implies lex_le((#[trigger] s[i]).name@, c) by {
                if i > 0 {
                    assert(s[i] == t[i - 1]);
                }
            }
            assert forall|i: int| cut_le(s, c) <= i < s.len() implies !lex_le(
                (#[trigger] s[i]).name@,
                c,
            ) by {
                assert(s[i] == t[i - 1]);
            }
        } else {
            assert forall|i: int| 0 <= i < s.len() implies !lex_le((#[trigger] s[i]).name@, c) by {
                if i > 0 && lex_le(s[i].name@, c) {
                    if lex_lt(s[i].name@, c) {
                        lemma_lex_lt_transitive(s[0].name@, s[i].name@, c);
                    }
                }
            }
        }
    }
}

/// `cut_lt` is the unique split point with its characteristic property.
pub proof fn lemma_cut_lt_is(s: Seq<Beverage>, n: Seq<u8>, p: int)
    requires
        sorted(s),
        0 <= p <= s.len(),
        forall|k: int| 0 <= k < p ==> lex_lt((#[trigger] s[k]).name@, n),
        p < s.len() ==> !lex_lt(s[p].name@, n),
    ensures
        cut_lt(s, n) == p,
{
    lemma_cut_lt_char(s, n);
    let c = cut_lt(s, n);
    if c < p {
        assert(lex_lt(s[c].name@, n));
        assert(false);
    }
    if c > p {
        assert(lex_lt(s[p].name@, n));
        assert(false);
    }
}

/// `cut_le` is the unique split point with its characteristic property.
pub proof fn lemma_cut_le_is(s: Seq<Beverage>, c: Seq<u8>, p: int)
    requires
        sorted(s),
        0 <= p <= s.len(),
        forall|k: int| 0 <= k < p ==> lex_le((#[trigger] s[k]).name@, c),
        p < s.len() ==> !lex_le(s[p].name@, c),
    ensures
        cut_le(s, c) == p,
{
    lemma_cut_le_char(s, c);
    let q = cut_le(s, c);
    if q < p {
        assert(lex_le(s[q].name@, c));
        assert(false);
    }
    if q > p {
        assert(lex_le(s[p].name@, c));
        assert(false);
    }
}

/// The beverage catalog, sorted by name.
pub struct Catalog {
    pub entries: Vec<Beverage>,
}

impl Catalog {
    /// Catalog invariant: strictly sorted names and valid records.
    pub open spec fn wf(self) -> bool {
        &&& sorted(self.entries@)
        &&& forall|i: int| 0 <= i < self.entries@.len() ==> entry_ok(#[trigger] self.entries@[i])
    }

    pub open spec fn has(self, n: Seq<u8>) -> bool {
        exists|i: int| 0 <= i < self.entries@.len() && (#[trigger] self.entries@[i]).name@ == n
    }

    /// Index of the entry named `n`; meaningful only when `has(n)`.
    pub open spec fn index_of(self, n: Seq<u8>) -> int {
        choose|i: int| 0 <= i < self.entries@.len() && (#[trigger] self.entries@[i]).name@ == n
    }

    /// Record stored under `n`; meaningful only when `has(n)`.
    pub open spec fn info_of(self, n: Seq<u8>) -> BeverageInfo {
        self.entries@[self.index_of(n)].info
    }

    /// In a well-formed catalog each name determines its index.
    pub proof fn lemma_at_index(self, i: int)
        requires
            self.wf(),
            0 <= i < self.entries@.len(),
        ensures
            self.has(self.entries@[i].name@),
            self.index_of(self.entries@[i].name@) == i,
            self.info_of(self.entries@[i].name@) == self.entries@[i].info,
    {
        let n = self.entries@[i].name@;
        assert(self.has(n));
        let j = self.index_of(n);
        if j != i {
            lemma_lex_lt_irreflexive(n);
            assert(false);
        }
    }

    /// Finds the index of the entry named `name`, if present.
    pub fn find(&self, name: &Vec<u8>) -> (r: Option<usize>)
        ensures
            match r {
                Some(i) => i < self.entries@.len() && self.entries@[i as int].name@ == name@,
                None => !self.has(name@),
            },
    {
        let mut i: usize = 0;
        while i < self.entries.len()
            invariant
                i <= self.entries@.len(),
                forall|k: int| 0 <= k < i ==> (#[trigger] self.entries@[k]).name@ != name@,
            decreases self.entries@.len() - i,
        {
            if bytes_eq(&self.entries[i].name, name) {
                return Some(i);
            }
            i += 1;
        }
        None
    }

    /// Index at which `name` would be inserted to keep the order.
    pub fn lower_bound(&self, name: &Vec<u8>) -> (p: usize)
        requires
            self.wf(),
        ensures
            p <= self.entries@.len(),
            p == cut_lt(self.entries@, name@),
    {
        let mut i: usize = 0;
        while i < self.entries.len()
            invariant
                self.wf(),
                i <= self.entries@.len(),
                forall|k: int| 0 <= k < i ==> lex_lt((#[trigger] self.entries@[k]).name@, name@),
            decreases self.entries@.len() - i,
        {
            if !bytes_lt(&self.entries[i].name, name) {
                proof {
                    lemma_cut_lt_is(self.entries@, name@, i as int);
                }
                return i;
            }
            i += 1;
        }
        proof {
            lemma_cut_lt_is(self.entries@, name@, i as int);
        }
        i
    }

    /// Index of the first entry strictly after the cursor `cursor`.
    pub fn upper_bound(&self, cursor: &Vec<u8>) -> (p: usize)
        requires
            self.wf(),
        ensures
            p <= self.entries@.len(),
            p == cut_le(self.entries@, cursor@),
    {
        let mut i: usize = 0;
        while i < self.entries.len()
            invariant
                self.wf(),
                i <= self.entries@.len(),
                forall|k: int| 0 <= k < i ==> lex_le((#[trigger] self.entries@[k]).name@, cursor@),
            decreases self.entries@.len() - i,
        {
            if !crate::order::bytes_le(&self.entries[i].name, cursor) {
                proof {
                    lemma_cut_le_is(self.entries@, cursor@, i as int);
                }
                return i;
            }
            i += 1;
        }
        proof {
            lemma_cut_le_is(self.entries@, cursor@, i as int);
        }
        i
    }

    /// Inserts a fresh entry at its ordered position.
    pub fn insert_sorted(&mut self, bev: Beverage)
        requires
            old(self).wf(),
            !old(self).has(bev.name@),
            entry_ok(bev),
        ensures
            final(self).wf(),
            final(self).entries@ == old(self).entries@.insert(
                cut_lt(old(self).entries@, bev.name@),
                bev,
            ),
    {
        let ghost s0 = self.entries@;
        let ghost n = bev.name@;
        let p = self.lower_bound(&bev.name);
        proof {
            lemma_cut_lt_char(s0, n);
        }
        self.entries.insert(p, bev);
        proof {
            let s = self.entries@;
            s0.insert_ensures(p as int, bev);
            assert forall|i: int| 0 <= i < s.len() implies entry_ok(#[trigger] s[i]) by {
                if i < p {
                    assert(s[i] == s0[i]);
                } else if i > p {
                    assert(s[i] == s0[i - 1]);
                }
            }
            assert forall|i: int, j: int|
                #![trigger s[i], s[j]]
                0 <= i < j < s.len() implies lex_lt(s[i].name@, s[j].name@) by {
                if i < p && j < p {
                    assert(s[i] == s0[i] && s[j] == s0[j]);
                } else if i < p && j == p {
                    assert(s[i] == s0[i]);
                } else if i < p && j > p {
                    assert(s[i] == s0[i] && s[j] == s0[j - 1]);
                } else if i == p && j > p {
                    assert(s[j] == s0[j - 1]);
                    assert(!lex_lt(s0[j - 1].name@, n));
                    assert(s0[j - 1].name@ != n);
                    lemma_lex_lt_total(n, s0[j - 1].name@);
                } else {
                    assert(s[i] == s0[i - 1] && s[j] == s0[j - 1]);
                }
            }
        }
    }

    /// Overwrites the record at index `i`, keeping the name.
    pub fn update_info(&mut self, i: usize, info: BeverageInfo)
        requires
            old(self).wf(),
            i < old(self).entries@.len(),
            info.valid(),
        ensures
            final(self).wf(),
            final(self).entries@ == old(self).entries@.update(
                i as int,
                Beverage { name: old(self).entries@[i as int].name, info },
            ),
    {
        let ghost s0 = self.entries@;
        let e = &mut self.entries[i];
        e.info = info;
        proof {
            let s = self.entries@;
            assert(s == s0.update(i as int, Beverage { name: s0[i as int].name, info }));
            assert forall|k: int| 0 <= k < s.len() implies entry_ok(#[trigger] s[k]) by {
                if k != i {
                    assert(s[k] == s0[k]);
                }
            }
            assert forall|k: int, j: int|
                #![trigger s[k], s[j]]
                0 <= k < j < s.len() implies lex_lt(s[k].name@, s[j].name@) by {
                assert(s[k].name@ == s0[k].name@);
                assert(s[j].name@ == s0[j].name@);
            }
        }
    }
}

/// Administrator identity and treasury of one deployed machine.
pub struct ContractConfig {
    pub admin_addr: Vec<u8>,
    pub treasury: Treasury,
}

impl ContractConfig {
    pub open spec fn wf(self) -> bool {
        self.admin_addr@.len() > 0 && self.treasury.wf()
    }
}

/// The whole machine state: configuration and catalog.
pub struct VendingMachine {
    pub config: ContractConfig,
    pub catalog: Catalog,
}

impl VendingMachine {
    /// Machine invariant; every transition preserves it, so it holds at
    /// every observation point.
    pub open spec fn wf(self) -> bool {
        self.config.wf() && self.catalog.wf()
    }

    /// Reads the record stored under `name`, if any.
    pub fn get_beverage(&self, name: &Vec<u8>) -> (r: Option<BeverageInfo>)
        requires
            self.wf(),
        ensures
            match r {
                Some(info) => self.catalog.has(name@) && info == self.catalog.info_of(name@),
                None => !self.catalog.has(name@),
            },
    {
        match self.catalog.find(name) {
            Some(i) => {
                proof {
                    self.catalog.lemma_at_index(i as int);
                }
                Some(self.catalog.entries[i].info)
            },
            None => None,
        }
    }
}

} // verus!
