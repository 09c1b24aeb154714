//! The cache of thumbnails: how many are made at a time, and which are dropped when
//! there are too many.
use vstd::prelude::*;

verus! {

// ---------------------------------------------------------------------------
// Slots
// ---------------------------------------------------------------------------

/// How many pictures are decoded at a time. A decoded picture takes more than a
/// hundred megabytes.
pub const GLOBAL_LIMIT: usize = 4;

/// Counts the slots in use, of a fixed number.
#[derive(Debug)]
pub struct Limiter {
    pub active: usize,
    pub max: usize,
}

/// Stands for a slot that was taken.
#[derive(Debug)]
pub struct Permit {
    taken: bool,
}

impl Limiter {
    /// No more slots are in use than there are.
    pub open spec fn wf(self) -> bool {
        self.max >= 1 && self.active <= self.max
    }

    /// A request for a slot makes this limiter the limiter `after`; `got` says whether
    /// it was met.
    pub open spec fn takes(self, got: bool, after: Limiter) -> bool {
        &&& after.max == self.max
        &&& got <==> self.active < self.max
        &&& after.active == self.active + (if got {
            1int
        } else {
            0
        })
    }

    /// A slot that is given back makes this limiter the limiter `after`.
    pub open spec fn gives_back(self, after: Limiter) -> bool {
        &&& after.max == self.max
        &&& after.active == (if self.active > 0 {
            self.active - 1
        } else {
            0
        })
    }

    /// A limiter with `max` slots, but at least one.
    pub fn new(max: usize) -> (r: Self)
        ensures
            r.wf(),
            r.active == 0,
            r.max == (if max < 1 {
                1
            } else {
                max
            }),
    {
        Limiter {
            active: 0,
            max: if max < 1 {
                1
            } else {
                max
            },
        }
    }

    /// Takes a slot, where one is free. Where none is, nothing changes, and the
    /// caller has to wait for one.
    pub fn acquire(&mut self) -> (r: Option<Permit>)
        requires
            old(self).wf(),
        ensures
            final(self).wf(),
            old(self).takes(r is Some, *final(self)),
    {
        if self.active >= self.max {
            return None;
        }
        self.active = self.active + 1;
        Some(Permit { taken: true })
    }

    /// Gives a slot back.
    pub fn release(&mut self, permit: Permit)
        requires
            old(self).wf(),
        ensures
            final(self).wf(),
            old(self).gives_back(*final(self)),
    {
        if self.active > 0 {
            self.active = self.active - 1;
        }
    }
}

/// The limiter that all requests share.
pub fn global_limiter() -> (r: Limiter)
    ensures
        r.wf(),
        r.active == 0,
        r.max == GLOBAL_LIMIT,
{
    Limiter::new(GLOBAL_LIMIT)
}

/// What happens to a limiter.
pub enum Use {
    /// A slot was asked for and given.
    Taken,
    /// A slot was asked for, and none was free.
    Refused,
    /// A slot was given back.
    Returned,
}

/// The states of a limiter, and what happens between them, in whatever order the
/// requests come.
pub open spec fn is_use_of(states: Seq<Limiter>, uses: Seq<Use>) -> bool {
    &&& states.len() == uses.len() + 1
    &&& forall|i: int|
        0 <= i < uses.len() ==> match #[trigger] uses[i] {
            Use::Taken => states[i].takes(true, states[i + 1]),
            Use::Refused => states[i].takes(false, states[i + 1]),
            Use::Returned => states[i].gives_back(states[i + 1]),
        }
}

/// The slots that were taken and not given back.
pub open spec fn held(uses: Seq<Use>) -> int
    decreases uses.len(),
{
    if uses.len() == 0 {
        0
    } else {
        held(uses.drop_last()) + match uses.last() {
            Use::Taken => 1int,
            Use::Refused => 0,
            Use::Returned => -1,
        }
    }
}

/// A slot is given back only after it was taken.
pub open spec fn returns_what_was_taken(uses: Seq<Use>) -> bool {
    forall|i: int| 0 <= i <= uses.len() ==> 0 <= #[trigger] held(uses.take(i))
}

/// The slots in use are at every moment those that were taken and not given back,
/// never more than there are, and a request is refused only while all are in use.
pub proof fn law_slots_are_those_held(states: Seq<Limiter>, uses: Seq<Use>, i: int)
    requires
        is_use_of(states, uses),
        states[0].wf(),
        states[0].active == 0,
        returns_what_was_taken(uses),
        0 <= i <= uses.len(),
    ensures
        states[i].active == held(uses.take(i)),
        states[i].max == states[0].max,
        held(uses.take(i)) <= states[0].max,
        i < uses.len() && uses[i] is Refused ==> held(uses.take(i)) == states[0].max,
    decreases i,
{
    if i > 0 {
        law_slots_are_those_held(states, uses, i - 1);
        assert(uses.take(i).drop_last() =~= uses.take(i - 1));
        assert(uses.take(i).last() == uses[i - 1]);
        assert(0 <= held(uses.take(i)));
    }
    assert(i < uses.len() && uses[i] is Refused ==> states[i].active >= states[i].max);
}

/// Once all slots were given back, as many requests as there are slots are met, one
/// after the other.
pub proof fn law_returned_slots_can_be_taken(
    states: Seq<Limiter>,
    uses: Seq<Use>,
    from: int,
    n: int,
)
    requires
        is_use_of(states, uses),
        states[0].wf(),
        states[0].active == 0,
        returns_what_was_taken(uses),
        0 <= from,
        0 <= n <= states[0].max,
        from + n <= uses.len(),
        held(uses.take(from)) == 0,
        forall|i: int| from <= i < from + n ==> !(#[trigger] uses[i] is Returned),
    ensures
        forall|i: int| from <= i < from + n ==> #[trigger] uses[i] is Taken,
        held(uses.take(from + n)) == n,
    decreases n,
{
    if n > 0 {
        law_returned_slots_can_be_taken(states, uses, from, n - 1);
        let last = from + n - 1;
        law_slots_are_those_held(states, uses, last);
        assert(uses[last] is Taken);
        assert(uses.take(from + n).drop_last() =~= uses.take(last));
        assert(uses.take(from + n).last() == uses[last]);
    }
}

// ---------------------------------------------------------------------------
// Dropping what was not used for long
// ---------------------------------------------------------------------------

/// The largest size of the cache, in bytes.
pub const DEFAULT_MAX_CACHE_BYTES: u64 = 2 * 1024 * 1024 * 1024;

/// The cache is looked through no more often than this, in seconds.
pub const PRUNE_MIN_INTERVAL_SECS: u64 = 60;

/// What was dropped.
#[derive(Debug, Clone, Copy, PartialEq, Eq, Structural)]
pub struct PruneStats {
    pub removed: u64,
    pub freed_bytes: u64,
}

impl Default for PruneStats {
    fn default() -> (r: Self)
        ensures
            r == (PruneStats { removed: 0, freed_bytes: 0 }),
    {
        PruneStats { removed: 0, freed_bytes: 0 }
    }
}

/// A file of the cache: its size, and when it was last used, as a number that grows
/// with time.
#[derive(Debug, Clone, Copy, PartialEq, Eq, Structural)]
pub struct CacheEntry {
    pub size: u64,
    pub atime: i128,
}

/// The sum of the sizes of the files at some positions.
pub open spec fn size_of_all(e: Seq<CacheEntry>, at: Seq<usize>) -> nat
    decreases at.len(),
{
    if at.len() == 0 {
        0
    } else {
        e[at[0] as int].size as nat + size_of_all(e, at.skip(1))
    }
}

/// The sum of the sizes of all files.
pub open spec fn total_size(e: Seq<CacheEntry>) -> nat
    decreases e.len(),
{
    if e.len() == 0 {
        0
    } else {
        total_size(e.drop_last()) + e.last().size as nat
    }
}

/// The size that a cache which got too large is brought down to: four fifths of the
/// limit. To stop at the limit would have the cache looked through again for the
/// next thumbnail.
pub open spec fn watermark(max: u64) -> int {
    max as int * 4 / 5
}

/// `at` names each position below `n` once.
pub open spec fn is_permutation(at: Seq<usize>, n: nat) -> bool {
    &&& at.len() == n
    &&& forall|i: int| 0 <= i < n ==> (#[trigger] at[i]) < n
    &&& forall|i: int, j: int| 0 <= i < j < n ==> #[trigger] at[i] != #[trigger] at[j]
}

/// The file at `a` goes before the file at `b`: it was used earlier, or at the same
/// time and comes first.
pub open spec fn older(e: Seq<CacheEntry>, a: usize, b: usize) -> bool {
    e[a as int].atime < e[b as int].atime || (e[a as int].atime == e[b as int].atime && a < b)
}

/// All files, those first that were not used for longest.
pub open spec fn is_drop_order(e: Seq<CacheEntry>, at: Seq<usize>) -> bool {
    &&& is_permutation(at, e.len())
    &&& forall|i: int, j: int|
        0 <= i < j < at.len() ==> older(e, #[trigger] at[i], #[trigger] at[j])
}

/// Pairs in ascending order: by the first number, then by the second.
pub open spec fn sorted_pairs(v: Seq<(i128, usize)>) -> bool {
    forall|i: int, j: int|
        0 <= i < j < v.len() ==> (#[trigger] v[i]).0 < (#[trigger] v[j]).0 || (v[i].0 == v[j].0
            && v[i].1 <= v[j].1)
}

/// The standard sort of a slice of pairs of integers. The contract says that it keeps
/// the pairs and puts them in the order of tuples, which is by the first number and
/// then by the second.
#[verifier::external_body]
fn sort_pairs(v: &mut Vec<(i128, usize)>)
    ensures
        sorted_pairs(final(v)@),
        final(v)@.to_multiset() == old(v)@.to_multiset(),
{
    v.sort();
}

proof fn lemma_sorted_keeps(a: Seq<(i128, usize)>, b: Seq<(i128, usize)>, e: Seq<CacheEntry>)
    requires
        a.to_multiset() == b.to_multiset(),
        a.len() == e.len(),
        forall|i: int| 0 <= i < a.len() ==> #[trigger] a[i] == (e[i].atime, i as usize),
        e.len() <= usize::MAX,
    ensures
        b.len() == e.len(),
        forall|i: int|
            0 <= i < b.len() ==> (#[trigger] b[i]).1 < e.len() && b[i].0 == e[b[i].1 as int].atime,
        forall|i: int, j: int| 0 <= i < j < b.len() ==> (#[trigger] b[i]).1 != (#[trigger] b[j]).1,
{
    a.to_multiset_ensures();
    b.to_multiset_ensures();
    assert forall|i: int| 0 <= i < b.len() implies (#[trigger] b[i]).1 < e.len() && b[i].0
        == e[b[i].1 as int].atime by {
        assert(b.contains(b[i]));
        assert(a.to_multiset().count(b[i]) > 0);
        assert(a.contains(b[i]));
        let k = choose|k: int| 0 <= k < a.len() && a[k] == b[i];
    }
    assert(a.no_duplicates()) by {
        assert forall|i: int, j: int| 0 <= i < a.len() && 0 <= j < a.len() && i != j implies a[i]
            != a[j] by {}
    }
    a.lemma_multiset_has_no_duplicates();
    assert forall|i: int, j: int| 0 <= i < j < b.len() implies (#[trigger] b[i]).1 != (
    #[trigger] b[j]).1 by {
        if b[i].1 == b[j].1 {
            assert(b[i] == b[j]);
            assert(a.to_multiset().count(b[i]) <= 1);
            lemma_two_in_multiset(b, i, j);
        }
    }
}

proof fn lemma_two_in_multiset(b: Seq<(i128, usize)>, i: int, j: int)
    requires
        0 <= i < j < b.len(),
        b[i] == b[j],
    ensures
        b.to_multiset().count(b[i]) >= 2,
{
    let x = b[i];
    let rest = b.remove(j);
    b.to_multiset_ensures();
    rest.to_multiset_ensures();
    assert(rest[i] == x);
    assert(rest.contains(x));
    assert(rest.to_multiset().count(x) > 0);
    assert(rest.to_multiset() =~= b.to_multiset().remove(x));
    assert(b.contains(x));
    assert(b.to_multiset().remove(x).count(x) == b.to_multiset().count(x) - 1);
}

/// The order in which files are dropped.
pub fn drop_order(entries: &Vec<CacheEntry>) -> (r: Vec<usize>)
    ensures
        is_drop_order(entries@, r@),
{
    let n: usize = entries.len();
    let mut pairs: Vec<(i128, usize)> = Vec::new();
    for i in 0..n
        invariant
            n == entries@.len(),
            pairs@.len() == i,
            forall|j: int| 0 <= j < i ==> #[trigger] pairs@[j] == (entries@[j].atime, j as usize),
    {
        pairs.push((entries[i].atime, i));
    }
    let ghost before = pairs@;
    sort_pairs(&mut pairs);
    proof {
        lemma_sorted_keeps(before, pairs@, entries@);
    }
    let mut out: Vec<usize> = Vec::new();
    for i in 0..n
        invariant
            n == pairs@.len(),
            out@.len() == i,
            forall|j: int| 0 <= j < i ==> #[trigger] out@[j] == pairs@[j].1,
    {
        out.push(pairs[i].1);
    }
    proof {
        assert forall|i: int| 0 <= i < n implies (#[trigger] out@[i]) < n by {
            assert(pairs@[i].1 < entries@.len());
        }
        assert forall|i: int, j: int| 0 <= i < j < n implies #[trigger] out@[i] != #[trigger] out@[j]
            && older(entries@, out@[i], out@[j]) by {
            assert(pairs@[i].1 != pairs@[j].1);
        }
    }
    out
}

/// The size of the cache; none where it cannot be written as a number.
pub fn cache_size(entries: &Vec<CacheEntry>) -> (r: Option<u64>)
    ensures
        r == if total_size(entries@) <= u64::MAX {
            Some(total_size(entries@) as u64)
        } else {
            None
        },
{
    let mut total: u64 = 0;
    for i in 0..entries.len()
        invariant
            total == total_size(entries@.take(i as int)),
    {
        proof {
            assert(entries@.take(i + 1).drop_last() =~= entries@.take(i as int));
            lemma_total_grows(entries@, i + 1);
        }
        total = match total.checked_add(entries[i].size) {
            Some(t) => t,
            None => return None,
        };
    }
    assert(entries@.take(entries@.len() as int) =~= entries@);
    Some(total)
}

proof fn lemma_total_grows(e: Seq<CacheEntry>, i: int)
    requires
        0 <= i <= e.len(),
    ensures
        total_size(e.take(i)) <= total_size(e),
    decreases e.len(),
{
    if i < e.len() {
        assert(e.drop_last().take(i) =~= e.take(i));
        lemma_total_grows(e.drop_last(), i);
    } else {
        assert(e.take(i) =~= e);
    }
}

proof fn lemma_permuted_size(e: Seq<CacheEntry>, at: Seq<usize>)
    requires
        is_permutation(at, e.len()),
    ensures
        size_of_all(e, at) == total_size(e),
    decreases e.len(),
{
    let n = e.len();
    if n > 0 {
        let top = (n - 1) as usize;
        let k = lemma_permutation_hits_top(at, n);
        let less = at.remove(k);
        lemma_size_remove(e, at, k);
        assert forall|i: int| 0 <= i < n - 1 implies (#[trigger] less[i]) < n - 1 by {
            if i < k {
                assert(less[i] == at[i]);
                assert(at[i] != at[k]);
            } else {
                assert(less[i] == at[i + 1]);
                assert(at[k] != at[i + 1]);
            }
        }
        assert forall|i: int, j: int| 0 <= i < j < n - 1 implies #[trigger] less[i]
            != #[trigger] less[j] by {
            let a = if i < k {
                i
            } else {
                i + 1
            };
            let b = if j < k {
                j
            } else {
                j + 1
            };
            assert(less[i] == at[a] && less[j] == at[b]);
            assert(at[a] != at[b]);
        }
        lemma_permuted_size(e.drop_last(), less);
        lemma_size_prefix(e, less);
    } else {
        assert(at.len() == 0);
    }
}

/// The sizes at positions other than the last do not depend on the last file.
proof fn lemma_size_prefix(e: Seq<CacheEntry>, at: Seq<usize>)
    requires
        e.len() > 0,
        forall|i: int| 0 <= i < at.len() ==> (#[trigger] at[i]) < e.len() - 1,
    ensures
        size_of_all(e, at) == size_of_all(e.drop_last(), at),
    decreases at.len(),
{
    if at.len() > 0 {
        assert(at[0] < e.len() - 1);
        assert forall|i: int| 0 <= i < at.skip(1).len() implies (#[trigger] at.skip(1)[i]) < e.len()
            - 1 by {
            assert(at.skip(1)[i] == at[i + 1]);
        }
        lemma_size_prefix(e, at.skip(1));
    }
}

proof fn lemma_size_remove(e: Seq<CacheEntry>, at: Seq<usize>, k: int)
    requires
        0 <= k < at.len(),
    ensures
        size_of_all(e, at) == size_of_all(e, at.remove(k)) + e[at[k] as int].size,
    decreases at.len(),
{
    if k == 0 {
        assert(at.remove(0) =~= at.skip(1));
    } else {
        lemma_size_remove(e, at.skip(1), k - 1);
        assert(at.remove(k)[0] == at[0]);
        assert(at.remove(k).skip(1) =~= at.skip(1).remove(k - 1));
        assert(at.skip(1)[k - 1] == at[k]);
    }
}

/// Among distinct positions below `n`, as many as there are, the largest occurs.
proof fn lemma_permutation_hits_top(at: Seq<usize>, n: nat) -> (k: int)
    requires
        is_permutation(at, n),
        n > 0,
    ensures
        0 <= k < n,
        at[k] == n - 1,
{
    if forall|i: int| 0 <= i < n ==> #[trigger] at[i] != n - 1 {
        assert(at.no_duplicates()) by {
            assert forall|i: int, j: int| 0 <= i < at.len() && 0 <= j < at.len() && i != j implies at[i]
                != at[j] by {
                if i < j {
                    assert(at[i] != at[j]);
                } else {
                    assert(at[j] != at[i]);
                }
            }
        }
        let s = at.map_values(|x: usize| x as int);
        assert(s.no_duplicates()) by {
            assert forall|i: int, j: int| 0 <= i < s.len() && 0 <= j < s.len() && i != j implies s[i]
                != s[j] by {
                assert(at[i] != at[j]);
            }
        }
        s.unique_seq_to_set();
        let all = vstd::set_lib::set_int_range(0, n - 1);
        vstd::set_lib::lemma_int_range(0, n - 1);
        assert(s.to_set().subset_of(all)) by {
            assert forall|x: int| s.to_set().contains(x) implies all.contains(x) by {
                let i = choose|i: int| 0 <= i < s.len() && s[i] == x;
                assert(at[i] < n);
                assert(at[i] != n - 1);
            }
        }
        vstd::set_lib::lemma_len_subset(s.to_set(), all);
        assert(false);
    }
    let k = choose|k: int| 0 <= k < n && #[trigger] at[k] == n - 1;
    k
}

/// Dropping files until the cache is small enough: the order, how far it was
/// followed, and the size that is left.
pub struct PruneRun {
    pub order: Vec<usize>,
    pub at: usize,
    pub current: u64,
    pub target: u64,
    pub stats: PruneStats,
}

impl PruneRun {
    /// The size that is left covers the files that were not tried yet; what was
    /// dropped and what is left make up the cache.
    pub open spec fn wf(self, e: Seq<CacheEntry>) -> bool {
        &&& is_drop_order(e, self.order@)
        &&& self.at <= self.order@.len()
        &&& size_of_all(e, self.order@.skip(self.at as int)) <= self.current
        &&& self.current + self.stats.freed_bytes == total_size(e)
        &&& total_size(e) <= u64::MAX
        &&& self.stats.removed <= self.at
        &&& self.stats.removed == self.at ==> self.current == size_of_all(
            e,
            self.order@.skip(self.at as int),
        )
    }

    /// Starts to bring a cache below its limit; none where it is not above it, or
    /// where its size cannot be written as a number.
    pub fn start(entries: &Vec<CacheEntry>, max: u64) -> (r: Option<PruneRun>)
        ensures
            r is Some <==> max < total_size(entries@) <= u64::MAX,
            r matches Some(run) ==> {
                &&& run.wf(entries@)
                &&& run.at == 0
                &&& run.current == total_size(entries@)
                &&& run.target == watermark(max)
                &&& run.stats == (PruneStats { removed: 0, freed_bytes: 0 })
            },
    {
        let total: u64 = match cache_size(entries) {
            Some(t) => t,
            None => return None,
        };
        if total <= max {
            return None;
        }
        let order = drop_order(entries);
        proof {
            lemma_permuted_size(entries@, order@);
            assert(order@.skip(0) =~= order@);
        }
        let wide: u128 = max as u128 * 4 / 5;
        Some(
            PruneRun {
                order,
                at: 0,
                current: total,
                target: wide as u64,
                stats: PruneStats::default(),
            },
        )
    }

    /// The next file to drop; none once the cache is small enough.
    pub fn next(&self, entries: &Vec<CacheEntry>) -> (r: Option<usize>)
        requires
            self.wf(entries@),
        ensures
            r is Some <==> self.current > self.target && self.at < self.order@.len(),
            r matches Some(i) ==> i == self.order@[self.at as int] && i < entries@.len(),
    {
        if self.current <= self.target || self.at >= self.order.len() {
            return None;
        }
        Some(self.order[self.at])
    }

    /// Records whether the file that `next` named could be dropped. One that could
    /// not is passed over.
    pub fn dropped(&mut self, entries: &Vec<CacheEntry>, ok: bool)
        requires
            old(self).wf(entries@),
            old(self).at < old(self).order@.len(),
        ensures
            final(self).wf(entries@),
            final(self).order@ == old(self).order@,
            final(self).at == old(self).at + 1,
            final(self).target == old(self).target,
            ({
                let size = entries@[old(self).order@[old(self).at as int] as int].size;
                if ok {
                    &&& final(self).current == old(self).current - size
                    &&& final(self).stats.removed == old(self).stats.removed + 1
                    &&& final(self).stats.freed_bytes == old(self).stats.freed_bytes + size
                } else {
                    &&& final(self).current == old(self).current
                    &&& final(self).stats == old(self).stats
                }
            }),
    {
        let n: usize = self.order.len();
        let i: usize = self.order[self.at];
        let size: u64 = entries[i].size;
        proof {
            let rest = self.order@.skip(self.at as int);
            assert(rest[0] == i);
            assert(rest.skip(1) =~= self.order@.skip(self.at + 1));
            lemma_total_bound(entries@, i as int);
        }
        if ok {
            self.current = self.current - size;
            self.stats.removed = self.stats.removed + 1;
            self.stats.freed_bytes = self.stats.freed_bytes + size;
        }
        self.at = self.at + 1;
    }
}

proof fn lemma_total_bound(e: Seq<CacheEntry>, i: int)
    requires
        0 <= i < e.len(),
    ensures
        e[i].size <= total_size(e),
    decreases e.len(),
{
    if i < e.len() - 1 {
        lemma_total_bound(e.drop_last(), i);
    }
}

/// A file is never dropped while one that was not used for longer is still to be
/// tried.
pub proof fn law_least_recently_used_goes_first(
    run: PruneRun,
    e: Seq<CacheEntry>,
    tried: int,
    kept: int,
)
    requires
        run.wf(e),
        0 <= tried < run.at,
        run.at <= kept < run.order@.len(),
    ensures
        e[run.order@[tried] as int].atime <= e[run.order@[kept] as int].atime,
{
    assert(older(e, run.order@[tried], run.order@[kept]));
}

/// Where every file that was tried could be dropped, pruning ends with the cache at
/// or below the watermark.
pub proof fn law_pruning_reaches_the_watermark(run: PruneRun, e: Seq<CacheEntry>)
    requires
        run.wf(e),
        run.stats.removed == run.at,
        !(run.current > run.target && run.at < run.order@.len()),
    ensures
        run.current <= run.target,
{
    if run.at == run.order@.len() {
        assert(run.order@.skip(run.at as int).len() == 0);
    }
}

/// A cache that got too large is brought down to eighty percent of its limit, to the byte.
pub proof fn law_watermark_is_eighty_percent(max: u64)
    ensures
        100 * watermark(max) <= 80 * max < 100 * (watermark(max) + 1),
        watermark(max) <= max,
{
}

/// Whether it is time to look through the cache: at most once a minute.
pub fn enforce_if_needed(now: u64, last: u64) -> (r: bool)
    ensures
        r == (now - last >= PRUNE_MIN_INTERVAL_SECS),
        r == (now >= last + 60),
{
    now >= last && now - last >= PRUNE_MIN_INTERVAL_SECS
}

/// Of two files the one that was used earlier is older, whatever their size; of two that
/// were used at the same time the one that comes first.
pub proof fn law_earlier_used_files_are_older(e: Seq<CacheEntry>, a: usize, b: usize)
    requires
        a < b < e.len(),
    ensures
        e[a as int].atime < e[b as int].atime ==> older(e, a, b) && !older(e, b, a),
        e[a as int].atime > e[b as int].atime ==> older(e, b, a) && !older(e, a, b),
        e[a as int].atime == e[b as int].atime ==> older(e, a, b) && !older(e, b, a),
{
}

} // verus!
