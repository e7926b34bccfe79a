//! Bounded-concurrency worker pool.
//!
//! One unit of work per filtered entry.  A unit acquires a permit from a
//! shared counter before it starts and releases it unconditionally when it
//! reaches a terminal state, so no more than the configured number of units
//! ever run at once and no permit leaks.  Units are independent: one unit's
//! failure never touches a sibling, and the run completes once every unit
//! is terminal — there is no aggregate failure.

use crate::catalog::Upload;
use crate::errors::UnitResult;
use crate::selector::is_archive_name;
use crate::selector::select_upload;
use vstd::prelude::*;

verus! {

/// The shared counting permit: at most `capacity` holders at once.
pub struct PermitCounter {
    pub capacity: usize,
    pub in_use: usize,
}

impl PermitCounter {
    /// The permit count never exceeds the configured capacity.
    pub open spec fn wf(self) -> bool {
        self.in_use <= self.capacity
    }

    pub fn new(capacity: usize) -> (r: PermitCounter)
        ensures
            r.capacity == capacity,
            r.in_use == 0,
            r.wf(),
    {
        PermitCounter { capacity, in_use: 0 }
    }

    /// Takes a permit when one is free; a full counter refuses and is left
    /// untouched, so the bound can never be overshot.
    pub fn try_acquire(&mut self) -> (r: bool)
        requires
            old(self).wf(),
        ensures
            final(self).capacity == old(self).capacity,
            final(self).wf(),
            r == (old(self).in_use < old(self).capacity),
            r ==> final(self).in_use == old(self).in_use + 1,
            !r ==> final(self).in_use == old(self).in_use,
    {
        if self.in_use < self.capacity {
            self.in_use = self.in_use + 1;
            true
        } else {
            false
        }
    }

    /// Gives a permit back; called on every completion, success or failure.
    pub fn release(&mut self)
        requires
            old(self).in_use >= 1,
        ensures
            final(self).capacity == old(self).capacity,
            final(self).in_use == old(self).in_use - 1,
    {
        self.in_use = self.in_use - 1;
    }
}

/// Where one unit of work stands.
pub enum UnitPhase {
    /// Not started: waiting for a permit.
    Waiting,
    /// Holding a permit, in flight.
    Active,
    /// Finished, permit returned; carries the unit's own outcome.
    Terminal(UnitResult),
}

/// How many units are in flight.
pub open spec fn active_count(s: Seq<UnitPhase>) -> int
    decreases s.len(),
{
    if s.len() == 0 {
        0
    } else {
        active_count(s.drop_last()) + if s.last() is Active {
            1int
        } else {
            0int
        }
    }
}

/// Replacing one element changes the in-flight count only by that
/// element's own contribution.
proof fn lemma_active_count_update(s: Seq<UnitPhase>, i: int, v: UnitPhase)
    requires
        0 <= i < s.len(),
    ensures
        active_count(s.update(i, v)) == active_count(s) + (if v is Active {
            1int
        } else {
            0int
        }) - (if s[i] is Active {
            1int
        } else {
            0int
        }),
    decreases s.len(),
{
    let t = s.update(i, v);
    if i == s.len() - 1 {
        assert(t.drop_last() =~= s.drop_last());
        assert(t.last() == v);
    } else {
        assert(t.drop_last() =~= s.drop_last().update(i, v));
        assert(t.last() == s.last());
        lemma_active_count_update(s.drop_last(), i, v);
    }
}

/// The whole pool: the shared permit counter and every unit's phase.
pub struct PoolRun {
    pub permits: PermitCounter,
    pub units: Vec<UnitPhase>,
}

impl PoolRun {
    /// The permit counter counts exactly the in-flight units, and stays
    /// within capacity — so at any instant at most `capacity` units are
    /// past the acquire point.
    pub open spec fn wf(self) -> bool {
        &&& self.permits.wf()
        &&& self.permits.in_use == active_count(self.units@)
    }

    pub open spec fn capacity(self) -> int {
        self.permits.capacity as int
    }

    pub fn new(n_units: usize, capacity: usize) -> (r: PoolRun)
        ensures
            r.wf(),
            r.capacity() == capacity,
            r.permits.in_use == 0,
            r.units@.len() == n_units,
            forall|j: int| 0 <= j < n_units ==> r.units@[j] is Waiting,
    {
        let mut units: Vec<UnitPhase> = Vec::new();
        let mut i: usize = 0;
        while i < n_units
            invariant
                i <= n_units,
                units@.len() == i,
                forall|j: int| 0 <= j < i ==> units@[j] is Waiting,
                active_count(units@) == 0,
            decreases n_units - i,
        {
            let ghost before = units@;
            units.push(UnitPhase::Waiting);
            proof {
                assert(units@.drop_last() =~= before);
            }
            i = i + 1;
        }
        PoolRun { permits: PermitCounter::new(capacity), units }
    }

    /// A waiting unit takes a permit and starts.  Requires a free permit:
    /// the acquire is the only gate before a unit's work begins.  No other
    /// unit's phase moves.
    pub fn start(&mut self, i: usize)
        requires
            old(self).wf(),
            i < old(self).units@.len(),
            old(self).units@[i as int] is Waiting,
            old(self).permits.in_use < old(self).permits.capacity,
        ensures
            final(self).wf(),
            final(self).capacity() == old(self).capacity(),
            final(self).units@.len() == old(self).units@.len(),
            final(self).units@[i as int] is Active,
            forall|j: int|
                0 <= j < old(self).units@.len() && j != i ==> final(self).units@[j] == old(
                    self,
                ).units@[j],
            final(self).permits.in_use == old(self).permits.in_use + 1,
    {
        proof {
            lemma_active_count_update(self.units@, i as int, UnitPhase::Active);
        }
        let acquired = self.permits.try_acquire();
        proof {
            assert(acquired);
        }
        self.units.set(i, UnitPhase::Active);
    }

    /// An in-flight unit reaches its terminal state and gives its permit
    /// back — on success and on failure alike, so the permit never leaks.
    /// Every sibling's phase is untouched: one unit's failure cannot cancel
    /// or alter another.
    pub fn finish(&mut self, i: usize, outcome: UnitResult)
        requires
            old(self).wf(),
            i < old(self).units@.len(),
            old(self).units@[i as int] is Active,
        ensures
            final(self).wf(),
            final(self).capacity() == old(self).capacity(),
            final(self).units@.len() == old(self).units@.len(),
            final(self).units@[i as int] == UnitPhase::Terminal(outcome),
            forall|j: int|
                0 <= j < old(self).units@.len() && j != i ==> final(self).units@[j] == old(
                    self,
                ).units@[j],
            final(self).permits.in_use == old(self).permits.in_use - 1,
    {
        proof {
            lemma_active_count_update(self.units@, i as int, UnitPhase::Terminal(outcome));
            assert(active_count(self.units@) >= 1) by {
                lemma_active_at_least_one(self.units@, i as int);
            }
        }
        self.units.set(i, UnitPhase::Terminal(outcome));
        self.permits.release();
    }
}

/// The concurrency bound: in every well-formed pool state — and `start`
/// and `finish` preserve well-formedness — the units past the
/// permit-acquire point never outnumber the capacity.
pub proof fn lemma_pool_bounded(p: PoolRun)
    requires
        p.wf(),
    ensures
        active_count(p.units@) <= p.capacity(),
{
}

/// A sequence with an in-flight unit has a positive in-flight count.
proof fn lemma_active_at_least_one(s: Seq<UnitPhase>, i: int)
    requires
        0 <= i < s.len(),
        s[i] is Active,
    ensures
        active_count(s) >= 1,
    decreases s.len(),
{
    lemma_active_nonneg(s.drop_last());
    if i < s.len() - 1 {
        lemma_active_at_least_one(s.drop_last(), i);
    }
}

/// The in-flight count is never negative.
proof fn lemma_active_nonneg(s: Seq<UnitPhase>)
    ensures
        active_count(s) >= 0,
    decreases s.len(),
{
    if s.len() > 0 {
        lemma_active_nonneg(s.drop_last());
    }
}

/// Runs every unit to its terminal state under the permit bound, given
/// each unit's own eventual outcome.  Every unit ends Terminal with exactly
/// the outcome injected for it: a failing unit (any `outcome[i]`) neither
/// blocks nor alters any sibling, and the run always returns with the full
/// tally.
#[verifier::loop_isolation(false)]
pub fn run_all(outcomes: Vec<UnitResult>, capacity: usize) -> (r: Vec<UnitPhase>)
    requires
        capacity >= 1,
    ensures
        r@.len() == outcomes@.len(),
        forall|j: int| 0 <= j < r@.len() ==> r@[j] == UnitPhase::Terminal(outcomes@[j]),
{
    let ghost want = outcomes@;
    let n = outcomes.len();
    let mut pool = PoolRun::new(n, capacity);
    let mut pending = outcomes;
    let mut lo: usize = 0;
    let mut hi: usize = 0;
    while lo < n
        invariant
            n == want.len(),
            pool.wf(),
            pool.capacity() == capacity,
            pool.units@.len() == n,
            lo <= hi <= n,
            hi - lo == pool.permits.in_use,
            hi - lo <= capacity,
            pending@ =~= want.subrange(lo as int, want.len() as int),
            forall|j: int| 0 <= j < lo ==> pool.units@[j] == UnitPhase::Terminal(want[j]),
            forall|j: int| lo <= j < hi ==> pool.units@[j] is Active,
            forall|j: int| hi <= j < n ==> pool.units@[j] is Waiting,
        decreases 2 * n - lo - hi,
    {
        if hi < n && hi - lo < capacity {
            pool.start(hi);
            hi = hi + 1;
        } else {
            let outcome = pending.remove(0);
            assert(outcome == want[lo as int]);
            pool.finish(lo, outcome);
            lo = lo + 1;
        }
    }
    let PoolRun { permits: _, units } = pool;
    units
}

/// What one unit decided to do with its game's uploads.
pub struct DownloadPlan {
    /// Which upload to fetch.
    pub index: usize,
    /// Extraction target directory name, when extraction will follow.
    pub extract_dir: Option<String>,
}

/// The per-unit decision after the uploads listing arrived: pick the upload
/// (archive-named first, else the first listed), and extract afterwards
/// exactly when extraction was requested and the pick is archive-named.
/// An empty listing yields nothing: that unit is skipped with a warning.
pub fn plan_download(uploads: &Vec<Upload>, do_extract: bool, extract_dir: String) -> (r: Option<
    DownloadPlan,
>)
    ensures
        r is None <==> uploads@.len() == 0,
        r matches Some(p) ==> {
            &&& p.index < uploads@.len()
            &&& (exists|j: int|
                0 <= j < uploads@.len() && is_archive_name(#[trigger] uploads@[j].filename@)) ==> (
            is_archive_name(uploads@[p.index as int].filename@) && forall|j: int|
                0 <= j < p.index ==> !is_archive_name(#[trigger] uploads@[j].filename@))
            &&& (uploads@.len() > 0 && (forall|j: int|
                0 <= j < uploads@.len() ==> !is_archive_name(#[trigger] uploads@[j].filename@)))
                ==> p.index == 0
            &&& (do_extract && is_archive_name(uploads@[p.index as int].filename@)) <==> (
            p.extract_dir is Some)
            &&& p.extract_dir matches Some(d) ==> d == extract_dir
        },
{
    match select_upload(uploads) {
        None => None,
        Some(i) => {
            let extract = if do_extract {
                if crate::selector::archive_name(uploads[i].filename.as_str()) {
                    Some(extract_dir)
                } else {
                    None
                }
            } else {
                None
            };
            Some(DownloadPlan { index: i, extract_dir: extract })
        },
    }
}

} // verus!
