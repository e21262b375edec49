//! The query engine: deterministic, paginated, lexicographically
//! ordered enumeration of the catalog.
//!
//! A listing starts strictly after the cursor (when one is given) and
//! returns at most the clamped page size of entries, in ascending name
//! order. Supplying the last returned name as the next cursor continues
//! the enumeration with no duplicate and no gap.

use vstd::prelude::*;

use crate::error::ContractError;
use crate::contract::add_beverage_post;
use crate::msg::{AllBeveragesDetails, AllBeveragesResponse, QueryMsg, Response};
use crate::order::{copy_bytes, lemma_lex_lt_asymmetric, lemma_lex_lt_irreflexive, lex_le, lex_lt};
use crate::state::{cut_le, cut_lt, lemma_cut_le_is, lemma_cut_lt_char, sorted, Beverage,
    BeverageInfo, VendingMachine};

verus! {

/// Page size used when the caller names none.
pub const DEFAULT_PAGE_SIZE: u32 = 10;

/// Largest page size served, whatever the caller requests.
pub const MAX_PAGE_SIZE: u32 = 30;

/// Page size actually served: the requested one, defaulted and clamped.
pub open spec fn page_limit(limit: Option<u32>) -> int {
    let l = match limit {
        Option::None => DEFAULT_PAGE_SIZE,
        Option::Some(x) => x,
    };
    if l > MAX_PAGE_SIZE {
        MAX_PAGE_SIZE as int
    } else {
        l as int
    }
}

/// Index where a listing starts: zero, or right after the cursor.
pub open spec fn listing_start(s: Seq<Beverage>, offset: Option<Seq<u8>>) -> int {
    match offset {
        Option::None => 0,
        Option::Some(c) => cut_le(s, c),
    }
}

/// Number of entries a listing returns.
pub open spec fn listing_len(s: Seq<Beverage>, offset: Option<Seq<u8>>, limit: Option<u32>) -> int {
    let rest = s.len() - listing_start(s, offset);
    if rest > page_limit(limit) {
        page_limit(limit)
    } else {
        rest
    }
}

/// Cursor argument as the byte string it names.
pub open spec fn offset_view(offset: Option<Vec<u8>>) -> Option<Seq<u8>> {
    match offset {
        Option::None => Option::None,
        Option::Some(c) => Option::Some(c@),
    }
}

/// What a listing reports: the contiguous run of entries that starts
/// right after the cursor, one reported record per catalog entry.
pub open spec fn listing_post(
    m: VendingMachine,
    offset: Option<Seq<u8>>,
    limit: Option<u32>,
    r: AllBeveragesResponse,
) -> bool {
    let s = m.catalog.entries@;
    let start = listing_start(s, offset);
    &&& r.beverages@.len() == listing_len(s, offset, limit)
    &&& forall|j: int|
        0 <= j < r.beverages@.len() ==> (#[trigger] r.beverages@[j]).matches_entry(
            s[start + j].name@,
            s[start + j].info,
        )
}

/// Lists the catalog in ascending name order, starting strictly after
/// `offset` when given, with at most the clamped page size of entries.
pub fn query_beverage_list(
    m: &VendingMachine,
    offset: Option<Vec<u8>>,
    limit: Option<u32>,
) -> (r: AllBeveragesResponse)
    requires
        m.wf(),
    ensures
        listing_post(*m, offset_view(offset), limit, r),
{
    let lim_raw: u32 = match &limit {
        None => DEFAULT_PAGE_SIZE,
        Some(x) => *x,
    };
    let lim: usize = (if lim_raw > MAX_PAGE_SIZE {
        MAX_PAGE_SIZE
    } else {
        lim_raw
    }) as usize;
    let start: usize = match &offset {
        None => 0,
        Some(c) => m.catalog.upper_bound(c),
    };
    let n = m.catalog.entries.len();
    let rest = n - start;
    let count = if rest > lim {
        lim
    } else {
        rest
    };
    let end = start + count;
    let mut out: Vec<AllBeveragesDetails> = Vec::new();
    let mut i: usize = start;
    while i < end
        invariant
            start <= i <= end,
            end <= m.catalog.entries@.len(),
            out@.len() == i - start,
            forall|j: int|
                0 <= j < out@.len() ==> (#[trigger] out@[j]).matches_entry(
                    m.catalog.entries@[start + j].name@,
                    m.catalog.entries@[start + j].info,
                ),
        decreases end - i,
    {
        let e = &m.catalog.entries[i];
        out.push(
            AllBeveragesDetails {
                name: copy_bytes(&e.name),
                amount: e.info.amount,
                price: e.info.price,
            },
        );
        i += 1;
    }
    AllBeveragesResponse { beverages: out }
}

/// Serves one read-only query.
pub fn query(m: &VendingMachine, msg: QueryMsg) -> (r: AllBeveragesResponse)
    requires
        m.wf(),
    ensures
        match msg {
            QueryMsg::BeverageList { offset, limit } => listing_post(
                *m,
                offset_view(offset),
                limit,
                r,
            ),
        },
{
    match msg {
        QueryMsg::BeverageList { offset, limit } => query_beverage_list(m, offset, limit),
    }
}

/// On a sorted catalog, the scan that starts strictly after the name at
/// index `i` starts at index `i + 1`.
pub proof fn lemma_cut_le_after_index(s: Seq<Beverage>, i: int)
    requires
        sorted(s),
        0 <= i < s.len(),
    ensures
        cut_le(s, s[i].name@) == i + 1,
{
    let c = s[i].name@;
    assert forall|k: int| 0 <= k < i + 1 implies lex_le((#[trigger] s[k]).name@, c) by {
        if k < i {
            assert(lex_lt(s[k].name@, s[i].name@));
        }
    }
    if i + 1 < s.len() {
        assert(lex_lt(s[i].name@, s[i + 1].name@));
        if lex_le(s[i + 1].name@, c) {
            if lex_lt(s[i + 1].name@, c) {
                lemma_lex_lt_asymmetric(c, s[i + 1].name@);
            } else {
                lemma_lex_lt_irreflexive(c);
            }
        }
    }
    lemma_cut_le_is(s, c, i + 1);
}

/// Pagination round trip: when a listing returns at least one entry,
/// the listing whose cursor is the last returned name starts exactly
/// where the previous page ended. Concatenating successive pages over
/// an unmodified catalog therefore reproduces the full ascending
/// enumeration, with no duplicate and no gap.
pub proof fn lemma_pagination_chain(
    m: VendingMachine,
    offset: Option<Seq<u8>>,
    limit: Option<u32>,
)
    requires
        m.wf(),
        listing_len(m.catalog.entries@, offset, limit) > 0,
    ensures
        ({
            let s = m.catalog.entries@;
            let start = listing_start(s, offset);
            let n = listing_len(s, offset, limit);
            listing_start(s, Option::Some(s[start + n - 1].name@)) == start + n
        }),
{
    let s = m.catalog.entries@;
    let start = listing_start(s, offset);
    let n = listing_len(s, offset, limit);
    if offset is Some {
        crate::state::lemma_cut_le_char(s, offset->0);
    }
    lemma_cut_le_after_index(s, start + n - 1);
}

/// The slice of the catalog a listing reports.
pub open spec fn listing_model(
    s: Seq<Beverage>,
    offset: Option<Seq<u8>>,
    limit: Option<u32>,
) -> Seq<Beverage> {
    s.subrange(listing_start(s, offset), listing_start(s, offset) + listing_len(s, offset, limit))
}

/// Concatenating a page with the page that restarts from its last name
/// yields one contiguous run of the catalog: the round trip skips
/// nothing and repeats nothing, whatever the two page sizes are.
pub proof fn lemma_pages_concatenate(
    m: VendingMachine,
    offset: Option<Seq<u8>>,
    k1: Option<u32>,
    k2: Option<u32>,
)
    requires
        m.wf(),
        listing_len(m.catalog.entries@, offset, k1) > 0,
    ensures
        ({
            let s = m.catalog.entries@;
            let start = listing_start(s, offset);
            let n1 = listing_len(s, offset, k1);
            let cursor = Option::Some(s[start + n1 - 1].name@);
            let n2 = listing_len(s, cursor, k2);
            listing_model(s, offset, k1) + listing_model(s, cursor, k2) == s.subrange(
                start,
                start + n1 + n2,
            )
        }),
{
    let s = m.catalog.entries@;
    let start = listing_start(s, offset);
    let n1 = listing_len(s, offset, k1);
    let cursor = Option::Some(s[start + n1 - 1].name@);
    if offset is Some {
        crate::state::lemma_cut_le_char(s, offset->0);
    }
    lemma_pagination_chain(m, offset, k1);
    let n2 = listing_len(s, cursor, k2);
    assert(0 <= start <= start + n1 <= s.len());
    assert(listing_start(s, cursor) == start + n1);
    assert(0 <= n2 <= s.len() - (start + n1));
    assert(listing_model(s, offset, k1) + listing_model(s, cursor, k2) =~= s.subrange(
        start,
        start + n1 + n2,
    ));
}

/// A beverage just added shows up in the very next listing without a
/// cursor, at its lexicographic position: after every existing name
/// that precedes it and before every existing name that follows it.
pub proof fn lemma_added_beverage_listed(
    pre: VendingMachine,
    post: VendingMachine,
    r: Result<Response, ContractError>,
    sender: Seq<u8>,
    name: Seq<u8>,
    amount: u64,
    price: u128,
)
    requires
        pre.wf(),
        post.wf(),
        add_beverage_post(pre, post, r, sender, name, amount, price),
        r is Ok,
    ensures
        ({
            let s = post.catalog.entries@;
            let p = cut_lt(pre.catalog.entries@, name);
            &&& listing_start(s, Option::None) == 0
            &&& 0 <= p < s.len()
            &&& s[p].name@ == name
            &&& s[p].info == BeverageInfo { amount, price }
            &&& forall|j: int| 0 <= j < p ==> lex_lt((#[trigger] s[j]).name@, name)
            &&& forall|j: int| p < j < s.len() ==> lex_lt(name, (#[trigger] s[j]).name@)
        }),
{
    lemma_cut_lt_char(pre.catalog.entries@, name);
    let s = post.catalog.entries@;
    let p = cut_lt(pre.catalog.entries@, name);
    assert forall|j: int| 0 <= j < p implies lex_lt((#[trigger] s[j]).name@, name) by {
        assert(lex_lt(s[j].name@, s[p].name@));
    }
    assert forall|j: int| p < j < s.len() implies lex_lt(name, (#[trigger] s[j]).name@) by {
        assert(lex_lt(s[p].name@, s[j].name@));
    }
}

} // verus!
