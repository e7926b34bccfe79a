//! Paginated retrieval of the owned-key listing.
//!
//! Pages are requested starting at 1; each page's keys are appended in
//! order; the first page whose item count falls short of its declared page
//! size is the last one.  A page that is exactly full keeps the listing
//! going, even when it happens to be the true end of the data — the short
//! count is the only stop signal, so one extra trailing request can occur.

use crate::catalog::OwnedKey;
use vstd::prelude::*;

verus! {

/// One page of the owned-key listing, as the remote answers it.
pub struct OwnedKeysPage {
    pub owned_keys: Vec<OwnedKey>,
    pub page: u64,
    pub per_page: u64,
}

/// The short-count stop signal: fewer items than the declared page size.
pub open spec fn is_short(p: OwnedKeysPage) -> bool {
    p.owned_keys@.len() < p.per_page
}

/// Concatenation of the keys of the first `n` pages, in page order.
pub open spec fn cat_pages(pages: Seq<OwnedKeysPage>, n: int) -> Seq<OwnedKey>
    decreases n,
{
    if n <= 0 {
        Seq::empty()
    } else {
        cat_pages(pages, n - 1) + pages[n - 1].owned_keys@
    }
}

/// Accumulator that drives the listing: the next page to request, the keys
/// gathered so far, and whether the short-count signal has been seen.
pub struct Paginator {
    pub next_page: u64,
    pub collected: Vec<OwnedKey>,
    pub done: bool,
}

impl Paginator {
    pub fn new() -> (r: Paginator)
        ensures
            r.next_page == 1,
            r.collected@ =~= Seq::<OwnedKey>::empty(),
            !r.done,
    {
        Paginator { next_page: 1, collected: Vec::new(), done: false }
    }

    /// Folds one page into the accumulator: appends its keys in order,
    /// advances the page counter (so no page is ever requested twice), and
    /// notes whether this was the last page.
    pub fn apply_page(&mut self, page: OwnedKeysPage) -> (done: bool)
        requires
            !old(self).done,
            old(self).next_page < u64::MAX,
        ensures
            final(self).collected@ == old(self).collected@ + page.owned_keys@,
            final(self).next_page == old(self).next_page + 1,
            final(self).done == is_short(page),
            done == final(self).done,
    {
        let count = page.owned_keys.len();
        let mut keys = page.owned_keys;
        self.collected.append(&mut keys);
        self.next_page = self.next_page + 1;
        self.done = (count as u64) < page.per_page;
        self.done
    }
}

/// Runs the whole listing against a given sequence of page responses:
/// `pages[i]` is what request `i + 1` would return.  Consumed pages are
/// exactly the prefix up to and including the first short page — each
/// requested once, in order — and the result is the concatenation of their
/// keys.  With no short page among the responses the listing would request
/// more: `None`.
#[verifier::loop_isolation(false)]
pub fn collect_pages(pages: Vec<OwnedKeysPage>) -> (r: Option<(Vec<OwnedKey>, usize)>)
    requires
        pages@.len() < u64::MAX,
    ensures
        r is Some ==> ({
            &&& 1 <= (r->0).1 <= pages@.len()
            &&& is_short(pages@[(r->0).1 - 1])
            &&& forall|j: int| 0 <= j < (r->0).1 - 1 ==> !is_short(#[trigger] pages@[j])
            &&& (r->0).0@ == cat_pages(pages@, (r->0).1 as int)
        }),
        r is None ==> forall|j: int| 0 <= j < pages@.len() ==> !is_short(#[trigger] pages@[j]),
{
    let ghost all = pages@;
    let n = pages.len();
    let mut rest = pages;
    let mut pg = Paginator::new();
    let mut i: usize = 0;
    while i < n
        invariant
            n == all.len(),
            n < u64::MAX,
            i <= n,
            rest@ =~= all.subrange(i as int, all.len() as int),
            pg.next_page == i + 1,
            !pg.done,
            pg.collected@ == cat_pages(all, i as int),
            forall|j: int| 0 <= j < i ==> !is_short(#[trigger] all[j]),
        decreases n - i,
    {
        let page = rest.remove(0);
        assert(page == all[i as int]);
        let done = pg.apply_page(page);
        i = i + 1;
        if done {
            return Some((pg.collected, i));
        }
    }
    None
}

} // verus!
