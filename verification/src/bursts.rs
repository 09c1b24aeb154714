//! Bursts: photos taken in quick succession, of which usually one is kept.
use vstd::prelude::*;

use crate::export::or_empty;
use crate::filepath::{file_name, name_of};
use crate::filter::{
    args_view,
    build_where,
    conditions,
    where_text,
    PairFilter,
    Query,
    DECISION,
    FROM_PHOTOS,
    STARS,
    TIME_TEXT,
};
use crate::text::opt_view;

verus! {

/// Photos no further apart than this belong together, unless asked otherwise.
pub const DEFAULT_GROUP_GAP_SECS: i64 = 3;

/// At most this many bursts are given.
pub const MAX_GROUPS: usize = 300;

/// The gap that is asked for, but not less than 0.
pub fn group_gap(asked: Option<i64>) -> (r: i64)
    ensures
        r == match asked {
            Some(g) => if g < 0 {
                0
            } else {
                g
            },
            None => DEFAULT_GROUP_GAP_SECS,
        },
        asked is None ==> r == 3,
        r >= 0,
{
    match asked {
        Some(g) => if g < 0 {
            0
        } else {
            g
        },
        None => DEFAULT_GROUP_GAP_SECS,
    }
}

// ---------------------------------------------------------------------------
// Clusters
// ---------------------------------------------------------------------------

/// A cluster is a run of positions.
pub open spec fn is_run(g: Seq<usize>) -> bool {
    g.len() > 0 && forall|k: int| 0 <= k < g.len() ==> #[trigger] g[k] == g[0] + k
}

/// Neighbours in a cluster are no further apart than `gap`.
pub open spec fn is_close(g: Seq<usize>, times: Seq<i64>, gap: int) -> bool {
    forall|k: int| 0 <= k < g.len() - 1 ==> times[g[0] + k + 1] - times[#[trigger] g[k] as int] <= gap
}

/// `groups` cut the first `n` positions into runs: all of them, in order, neighbours
/// in a run no further apart than `gap`, and the last of a run further from the
/// first of the next.
pub open spec fn is_clustering(groups: Seq<Seq<usize>>, times: Seq<i64>, n: int, gap: int) -> bool {
    &&& 0 <= n
    &&& groups.len() == 0 <==> n == 0
    &&& n > 0 ==> groups[0][0] == 0 && groups.last()[0] + groups.last().len() == n
    &&& forall|g: int| 0 <= g < groups.len() ==> is_run(#[trigger] groups[g])
    &&& forall|g: int| 0 <= g < groups.len() ==> is_close(#[trigger] groups[g], times, gap)
    &&& forall|g: int|
        0 <= g < groups.len() - 1 ==> (#[trigger] groups[g + 1])[0] == groups[g][0]
            + groups[g].len()
    &&& forall|g: int|
        0 <= g < groups.len() - 1 ==> times[(#[trigger] groups[g + 1])[0] as int]
            - times[groups[g + 1][0] - 1] > gap
}

pub open spec fn groups_view(groups: Seq<Vec<usize>>) -> Seq<Seq<usize>> {
    groups.map_values(|g: Vec<usize>| g@)
}

/// The clustering with one more position: behind the last run, or in a run of its
/// own.
proof fn lemma_cluster_step(groups: Seq<Seq<usize>>, times: Seq<i64>, i: int, gap: int)
    requires
        0 <= i < times.len(),
        times.len() <= usize::MAX,
        is_clustering(groups, times, i, gap),
    ensures
        i > 0 && times[i] - times[i - 1] <= gap ==> is_clustering(
            groups.drop_last().push(groups.last().push(i as usize)),
            times,
            i + 1,
            gap,
        ),
        i == 0 || times[i] - times[i - 1] > gap ==> is_clustering(
            groups.push(seq![i as usize]),
            times,
            i + 1,
            gap,
        ),
{
    if i > 0 && times[i] - times[i - 1] <= gap {
        let last = groups.last();
        let more = last.push(i as usize);
        let out = groups.drop_last().push(more);
        let n = groups.len();
        assert(is_run(groups[n - 1]));
        assert(is_close(groups[n - 1], times, gap));
        assert(last[0] + last.len() == i);
        assert(last[last.len() - 1] == i - 1);
        assert(is_run(more)) by {
            assert forall|k: int| 0 <= k < more.len() implies #[trigger] more[k] == more[0] + k by {
                if k < last.len() {
                    assert(more[k] == last[k]);
                }
            }
        }
        assert(is_close(more, times, gap)) by {
            assert forall|k: int| 0 <= k < more.len() - 1 implies times[more[0] + k + 1]
                - times[#[trigger] more[k] as int] <= gap by {
                assert(more[k] == last[k]);
                if k == last.len() - 1 {
                    assert(more[0] + k + 1 == i);
                }
            }
        }
        assert forall|g: int| 0 <= g < out.len() implies is_run(#[trigger] out[g]) && is_close(
            out[g],
            times,
            gap,
        ) by {
            if g < n - 1 {
                assert(out[g] == groups[g]);
            }
        }
        assert forall|g: int| 0 <= g < out.len() - 1 implies (#[trigger] out[g + 1])[0] == out[g][0]
            + out[g].len() && times[out[g + 1][0] as int] - times[out[g + 1][0] - 1] > gap by {
            assert(out[g] == groups[g]);
            assert(groups[g + 1][0] == groups[g][0] + groups[g].len());
            if g + 1 < n - 1 {
                assert(out[g + 1] == groups[g + 1]);
            } else {
                assert(out[g + 1][0] == last[0]);
            }
        }
        if n == 1 {
            assert(out[0] == more);
            assert(more[0] == last[0]);
        } else {
            assert(out[0] == groups[0]);
        }
    }
    if i == 0 || times[i] - times[i - 1] > gap {
        let one = seq![i as usize];
        let out = groups.push(one);
        let n = groups.len();
        assert(is_run(one));
        assert(is_close(one, times, gap));
        assert forall|g: int| 0 <= g < out.len() implies is_run(#[trigger] out[g]) && is_close(
            out[g],
            times,
            gap,
        ) by {
            if g < n {
                assert(out[g] == groups[g]);
            }
        }
        assert forall|g: int| 0 <= g < out.len() - 1 implies (#[trigger] out[g + 1])[0] == out[g][0]
            + out[g].len() && times[out[g + 1][0] as int] - times[out[g + 1][0] - 1] > gap by {
            assert(out[g] == groups[g]);
            if g + 1 < n {
                assert(out[g + 1] == groups[g + 1]);
                assert(groups[g + 1][0] == groups[g][0] + groups[g].len());
            } else {
                assert(out[g + 1] == one);
                assert(groups.last() == groups[g]);
            }
        }
        if n > 0 {
            assert(out[0] == groups[0]);
        }
    }
}

/// Cuts photos, given by their times in ascending order, into bursts: neighbours no
/// further apart than `gap` seconds belong together.
pub fn cluster_by_gap(times: &[i64], gap: i64) -> (r: Vec<Vec<usize>>)
    ensures
        is_clustering(groups_view(r@), times@, times@.len() as int, gap as int),
{
    let n: usize = times.len();
    let mut groups: Vec<Vec<usize>> = Vec::new();
    let mut current: Vec<usize> = Vec::new();
    let ghost mut model: Seq<Seq<usize>> = Seq::empty();
    for i in 0..n
        invariant
            n == times@.len(),
            is_clustering(model, times@, i as int, gap as int),
            i == 0 ==> groups@.len() == 0 && current@.len() == 0 && model.len() == 0,
            i > 0 ==> model == groups_view(groups@).push(current@) && current@.len() > 0,
    {
        proof {
            lemma_cluster_step(model, times@, i as int, gap as int);
        }
        if i == 0 {
            current.push(i);
            proof {
                model = model.push(seq![i as usize]);
                assert(current@ =~= seq![i as usize]);
                assert(model =~= groups_view(groups@).push(current@));
            }
        } else {
            let step: i128 = times[i] as i128 - times[i - 1] as i128;
            let ghost before = current@;
            let ghost gs = groups_view(groups@);
            if step <= gap as i128 {
                current.push(i);
                proof {
                    assert(model.drop_last() =~= gs);
                    model = model.drop_last().push(model.last().push(i as usize));
                }
            } else {
                let mut full: Vec<usize> = Vec::new();
                core::mem::swap(&mut full, &mut current);
                groups.push(full);
                current.push(i);
                proof {
                    model = model.push(seq![i as usize]);
                    assert(groups_view(groups@) =~= gs.push(before));
                    assert(current@ =~= seq![i as usize]);
                }
            }
        }
    }
    if current.len() > 0 {
        let ghost gs = groups_view(groups@);
        let ghost last = current@;
        groups.push(current);
        assert(groups_view(groups@) =~= gs.push(last));
    } else {
        assert(groups_view(groups@) =~= model);
    }
    groups
}

/// Every photo belongs to exactly one burst.
pub proof fn law_every_photo_is_in_one_burst(
    groups: Seq<Seq<usize>>,
    times: Seq<i64>,
    n: int,
    gap: int,
    i: int,
)
    requires
        is_clustering(groups, times, n, gap),
        0 <= i < n,
    ensures
        exists|g: int| 0 <= g < groups.len() && (#[trigger] groups[g]).contains(i as usize),
        forall|a: int, b: int|
            0 <= a < groups.len() && 0 <= b < groups.len() && (#[trigger] groups[a]).contains(
                i as usize,
            ) && (#[trigger] groups[b]).contains(i as usize) ==> a == b,
{
    let g = lemma_find_group(groups, times, n, gap, i, groups.len() - 1);
    assert(groups[g][i - groups[g][0]] == i as usize);
    assert(groups[g].contains(i as usize));
    assert forall|a: int, b: int|
        0 <= a < groups.len() && 0 <= b < groups.len() && (#[trigger] groups[a]).contains(
            i as usize,
        ) && (#[trigger] groups[b]).contains(i as usize) implies a == b by {
        lemma_member_bounds(groups[a], i as usize);
        lemma_member_bounds(groups[b], i as usize);
        if a < b {
            lemma_runs_ascend(groups, times, n, gap, a, b);
        } else if b < a {
            lemma_runs_ascend(groups, times, n, gap, b, a);
        }
    }
}

/// There is only one way to cut photos into bursts.
pub proof fn law_bursts_are_unique(
    a: Seq<Seq<usize>>,
    b: Seq<Seq<usize>>,
    times: Seq<i64>,
    n: int,
    gap: int,
)
    requires
        is_clustering(a, times, n, gap),
        is_clustering(b, times, n, gap),
    ensures
        a == b,
{
    if n > 0 {
        assert forall|k: int| 0 <= k < a.len() implies k < b.len() && #[trigger] a[k] == b[k] by {
            lemma_same_group(a, b, times, n, gap, k);
        }
        assert forall|k: int| 0 <= k < b.len() implies k < a.len() && #[trigger] b[k] == a[k] by {
            lemma_same_group(b, a, times, n, gap, k);
        }
        assert(a.len() == b.len()) by {
            if a.len() < b.len() {
                assert(b[a.len() as int] == a[a.len() as int]);
            } else if b.len() < a.len() {
                assert(a[b.len() as int] == b[b.len() as int]);
            }
        }
    }
    assert(a =~= b);
}

proof fn lemma_same_group(
    a: Seq<Seq<usize>>,
    b: Seq<Seq<usize>>,
    times: Seq<i64>,
    n: int,
    gap: int,
    k: int,
)
    requires
        is_clustering(a, times, n, gap),
        is_clustering(b, times, n, gap),
        0 <= k < a.len(),
    ensures
        k < b.len(),
        a[k] == b[k],
    decreases k,
{
    lemma_group_in_bounds(a, times, n, gap, k);
    assert(is_run(a[k]));
    if k > 0 {
        lemma_same_group(a, b, times, n, gap, k - 1);
        assert(a[(k - 1) + 1][0] == a[k - 1][0] + a[k - 1].len());
        if k == b.len() {
            assert(b.last() == b[k - 1]);
        }
        assert(b[(k - 1) + 1][0] == b[k - 1][0] + b[k - 1].len());
    }
    lemma_group_in_bounds(b, times, n, gap, k);
    assert(is_run(b[k]));
    assert(a[k][0] == b[k][0]);
    lemma_no_shorter(a, b, times, n, gap, k);
    lemma_no_shorter(b, a, times, n, gap, k);
    assert(a[k] =~= b[k]) by {
        assert forall|i: int| 0 <= i < a[k].len() implies a[k][i] == b[k][i] by {
            assert(a[k][i] == a[k][0] + i);
            assert(b[k][i] == b[k][0] + i);
        }
    }
}

/// A run that starts where another does is not shorter: it would have to end at a gap
/// that the other one bridges.
proof fn lemma_no_shorter(
    a: Seq<Seq<usize>>,
    b: Seq<Seq<usize>>,
    times: Seq<i64>,
    n: int,
    gap: int,
    k: int,
)
    requires
        is_clustering(a, times, n, gap),
        is_clustering(b, times, n, gap),
        0 <= k < a.len(),
        k < b.len(),
        a[k][0] == b[k][0],
    ensures
        a[k].len() >= b[k].len(),
{
    assert(is_run(a[k]));
    assert(is_run(b[k]));
    assert(is_close(b[k], times, gap));
    lemma_group_in_bounds(b, times, n, gap, k);
    if a[k].len() < b[k].len() {
        let e = a[k].len() as int;
        if k + 1 < a.len() {
            assert(a[k + 1][0] == a[k][0] + e);
            assert(times[a[k + 1][0] as int] - times[a[k + 1][0] - 1] > gap);
            assert(b[k][e - 1] == b[k][0] + (e - 1));
            assert(times[b[k][0] + (e - 1) + 1] - times[b[k][e - 1] as int] <= gap);
        } else {
            assert(a.last() == a[k]);
        }
    }
}

proof fn lemma_member_bounds(g: Seq<usize>, x: usize)
    requires
        is_run(g),
        g.contains(x),
    ensures
        g[0] <= x < g[0] + g.len(),
{
    let k = choose|k: int| 0 <= k < g.len() && g[k] == x;
    assert(g[k] == g[0] + k);
}

proof fn lemma_runs_ascend(
    groups: Seq<Seq<usize>>,
    times: Seq<i64>,
    n: int,
    gap: int,
    a: int,
    b: int,
)
    requires
        is_clustering(groups, times, n, gap),
        0 <= a < b < groups.len(),
    ensures
        groups[a][0] + groups[a].len() <= groups[b][0],
    decreases b - a,
{
    assert(groups[(b - 1) + 1][0] == groups[b - 1][0] + groups[b - 1].len());
    if a < b - 1 {
        lemma_runs_ascend(groups, times, n, gap, a, b - 1);
    }
}

proof fn lemma_find_group(
    groups: Seq<Seq<usize>>,
    times: Seq<i64>,
    n: int,
    gap: int,
    i: int,
    top: int,
) -> (g: int)
    requires
        is_clustering(groups, times, n, gap),
        0 <= top < groups.len(),
        0 <= i < groups[top][0] + groups[top].len(),
    ensures
        0 <= g <= top,
        groups[g][0] <= i < groups[g][0] + groups[g].len(),
    decreases top,
{
    if groups[top][0] <= i {
        top
    } else {
        if top > 0 {
            assert(groups[(top - 1) + 1][0] == groups[top - 1][0] + groups[top - 1].len());
        }
        lemma_find_group(groups, times, n, gap, i, top - 1)
    }
}

// ---------------------------------------------------------------------------
// Bursts for the user
// ---------------------------------------------------------------------------

/// The shots that meet a condition and have a time, in the order of their times.
pub open spec fn bursts_text(w: Seq<char>) -> Seq<char> {
    "SELECT MIN(p.id), p.pair_key, MIN(COALESCE(p.taken_at_corrected, p.mtime)), MIN("@
        + TIME_TEXT@ + "), "@ + DECISION@ + ", "@ + STARS@ + ", MIN(p.path) "@ + FROM_PHOTOS@
        + " WHERE "@ + w
        + " AND COALESCE(p.taken_at_corrected, p.mtime) IS NOT NULL GROUP BY p.pair_key ORDER BY 3"@
}

/// The query for the photos among which bursts are looked for, in the order of
/// their times.
pub fn bursts_query(f: &PairFilter, sep: char) -> (r: Query)
    ensures
        r.sql@ == bursts_text(where_text(f@, sep)),
        args_view(r.args@) == conditions(f@, sep).args,
{
    let (w, args) = build_where(f, sep);
    let mut sql =
        "SELECT MIN(p.id), p.pair_key, MIN(COALESCE(p.taken_at_corrected, p.mtime)), MIN(".to_string();
    sql.push_str(TIME_TEXT);
    sql.push_str("), ");
    sql.push_str(DECISION);
    sql.push_str(", ");
    sql.push_str(STARS);
    sql.push_str(", MIN(p.path) ");
    sql.push_str(FROM_PHOTOS);
    sql.push_str(" WHERE ");
    sql.push_str(w.as_str());
    sql.push_str(
        " AND COALESCE(p.taken_at_corrected, p.mtime) IS NOT NULL GROUP BY p.pair_key ORDER BY 3",
    );
    Query { sql, args }
}

/// A photo among which bursts are looked for.
#[derive(Debug, Clone)]
pub struct BurstRow {
    pub id: i64,
    pub pair_key: String,
    pub time: i64,
    pub time_text: Option<String>,
    pub decision: String,
    pub stars: i64,
    pub path: String,
}

/// A photo of a burst.
#[derive(Debug, Clone)]
pub struct SimilarMember {
    pub id: i64,
    pub pair_key: String,
    pub name: String,
    pub time_text: Option<String>,
    pub decision: String,
    pub stars: i64,
}

/// What a `SimilarMember` holds.
pub struct MemberModel {
    pub id: i64,
    pub pair_key: Seq<char>,
    pub name: Seq<char>,
    pub time_text: Option<Seq<char>>,
    pub decision: Seq<char>,
    pub stars: i64,
}

impl View for SimilarMember {
    type V = MemberModel;

    open spec fn view(&self) -> MemberModel {
        MemberModel {
            id: self.id,
            pair_key: self.pair_key@,
            name: self.name@,
            time_text: opt_view(self.time_text),
            decision: self.decision@,
            stars: self.stars,
        }
    }
}

/// A burst.
#[derive(Debug, Clone)]
pub struct SimilarGroup {
    /// The key of its first photo, by which it is known.
    pub key: String,
    pub size: usize,
    /// The seconds from its first photo to its last.
    pub span_secs: i64,
    pub start_text: Option<String>,
    pub members: Vec<SimilarMember>,
}

/// What a `SimilarGroup` holds.
pub struct GroupModel {
    pub key: Seq<char>,
    pub size: nat,
    pub span_secs: i64,
    pub start_text: Option<Seq<char>>,
    pub members: Seq<MemberModel>,
}

impl View for SimilarGroup {
    type V = GroupModel;

    open spec fn view(&self) -> GroupModel {
        GroupModel {
            key: self.key@,
            size: self.size as nat,
            span_secs: self.span_secs,
            start_text: opt_view(self.start_text),
            members: self.members@.map_values(|m: SimilarMember| m@),
        }
    }
}

pub open spec fn member_for(r: BurstRow) -> MemberModel {
    MemberModel {
        id: r.id,
        pair_key: r.pair_key@,
        name: or_empty(name_of(r.path@)),
        time_text: opt_view(r.time_text),
        decision: r.decision@,
        stars: r.stars,
    }
}

/// The seconds between two times, as far as they can be written.
pub open spec fn span(from: i64, to: i64) -> i64 {
    let d = to - from;
    if d > i64::MAX {
        i64::MAX
    } else if d < i64::MIN {
        i64::MIN
    } else {
        d as i64
    }
}

/// The burst made of the photos at the positions of a cluster.
pub open spec fn group_for(rows: Seq<BurstRow>, c: Seq<usize>) -> GroupModel {
    GroupModel {
        key: rows[c[0] as int].pair_key@,
        size: c.len(),
        span_secs: span(rows[c[0] as int].time, rows[c.last() as int].time),
        start_text: opt_view(rows[c[0] as int].time_text),
        members: c.map_values(|i: usize| member_for(rows[i as int])),
    }
}

pub open spec fn times_of(rows: Seq<BurstRow>) -> Seq<i64> {
    rows.map_values(|r: BurstRow| r.time)
}

/// The bursts among some clusters: those of two photos and more, but no more than
/// the limit.
pub open spec fn bursts_in(rows: Seq<BurstRow>, clusters: Seq<Seq<usize>>) -> Seq<GroupModel>
    decreases clusters.len(),
{
    if clusters.len() == 0 {
        Seq::empty()
    } else {
        let rest = bursts_in(rows, clusters.drop_last());
        if clusters.last().len() < 2 || rest.len() >= MAX_GROUPS {
            rest
        } else {
            rest.push(group_for(rows, clusters.last()))
        }
    }
}

proof fn lemma_bursts_stop(rows: Seq<BurstRow>, clusters: Seq<Seq<usize>>, k: int)
    requires
        0 <= k <= clusters.len(),
        bursts_in(rows, clusters.take(k)).len() >= MAX_GROUPS,
    ensures
        bursts_in(rows, clusters) == bursts_in(rows, clusters.take(k)),
    decreases clusters.len(),
{
    if k < clusters.len() {
        assert(clusters.drop_last().take(k) =~= clusters.take(k));
        lemma_bursts_stop(rows, clusters.drop_last(), k);
    } else {
        assert(clusters.take(k) =~= clusters);
    }
}

fn make_group(rows: &Vec<BurstRow>, c: &Vec<usize>) -> (r: SimilarGroup)
    requires
        c@.len() > 0,
        forall|k: int| 0 <= k < c@.len() ==> #[trigger] c@[k] < rows@.len(),
    ensures
        r@ == group_for(rows@, c@),
{
    let size: usize = c.len();
    let mut members: Vec<SimilarMember> = Vec::new();
    let ghost want = c@.map_values(|i: usize| member_for(rows@[i as int]));
    for k in 0..size
        invariant
            size == c@.len(),
            forall|j: int| 0 <= j < c@.len() ==> #[trigger] c@[j] < rows@.len(),
            want == c@.map_values(|i: usize| member_for(rows@[i as int])),
            members@.map_values(|m: SimilarMember| m@) =~= want.take(k as int),
    {
        assert(c@[k as int] < rows@.len());
        let row = &rows[c[k]];
        let name = match file_name(row.path.as_str()) {
            Some(n) => n,
            None => String::new(),
        };
        proof {
            if name_of(row.path@) is None {
                assert(name@ =~= Seq::<char>::empty());
            }
        }
        let time_text = match &row.time_text {
            Some(t) => Some(t.clone()),
            None => None,
        };
        let m = SimilarMember {
            id: row.id,
            pair_key: row.pair_key.clone(),
            name,
            time_text,
            decision: row.decision.clone(),
            stars: row.stars,
        };
        let ghost before = members@.map_values(|m: SimilarMember| m@);
        members.push(m);
        proof {
            assert(m@ == want[k as int]);
            assert(members@.map_values(|m: SimilarMember| m@) =~= before.push(m@));
        }
    }
    assert(want.take(size as int) =~= want);
    assert(c@[0] < rows@.len());
    let ghost lastk = c@.len() - 1;
    assert(c@[lastk] < rows@.len());
    let first = &rows[c[0]];
    let last = &rows[c[size - 1]];
    let d: i128 = last.time as i128 - first.time as i128;
    let span_secs: i64 = if d > i64::MAX as i128 {
        i64::MAX
    } else if d < i64::MIN as i128 {
        i64::MIN
    } else {
        d as i64
    };
    let start_text = match &first.time_text {
        Some(t) => Some(t.clone()),
        None => None,
    };
    SimilarGroup { key: first.pair_key.clone(), size, span_secs, start_text, members }
}

/// The bursts among photos in the order of their times.
pub fn similar_groups(rows: &Vec<BurstRow>, gap: i64) -> (r: Vec<SimilarGroup>)
    ensures
        exists|clusters: Seq<Seq<usize>>|
            {
                &&& #[trigger] is_clustering(
                    clusters,
                    times_of(rows@),
                    rows@.len() as int,
                    gap as int,
                )
                &&& r@.map_values(|g: SimilarGroup| g@) == bursts_in(rows@, clusters)
            },
{
    let mut times: Vec<i64> = Vec::new();
    for i in 0..rows.len()
        invariant
            times@ =~= times_of(rows@).take(i as int),
    {
        times.push(rows[i].time);
    }
    assert(times@ =~= times_of(rows@));
    let clusters = cluster_by_gap(times.as_slice(), gap);
    let ghost cs = groups_view(clusters@);
    let mut out: Vec<SimilarGroup> = Vec::new();
    let mut i: usize = 0;
    proof {
        assert(out@.map_values(|g: SimilarGroup| g@) =~= bursts_in(rows@, cs.take(0)));
    }
    while i < clusters.len() && out.len() < MAX_GROUPS
        invariant
            i <= clusters@.len(),
            cs == groups_view(clusters@),
            is_clustering(cs, times_of(rows@), rows@.len() as int, gap as int),
            out@.map_values(|g: SimilarGroup| g@) == bursts_in(rows@, cs.take(i as int)),
        decreases clusters@.len() - i,
    {
        let c = &clusters[i];
        proof {
            assert(cs[i as int] == c@);
            assert(cs.take(i + 1).drop_last() =~= cs.take(i as int));
            assert(is_run(cs[i as int]));
            lemma_group_in_bounds(cs, times_of(rows@), rows@.len() as int, gap as int, i as int);
        }
        if c.len() >= 2 {
            assert forall|k: int| 0 <= k < c@.len() implies #[trigger] c@[k] < rows@.len() by {
                assert(c@[k] == c@[0] + k);
            }
            let g = make_group(rows, c);
            let ghost before = out@.map_values(|g: SimilarGroup| g@);
            out.push(g);
            assert(out@.map_values(|g: SimilarGroup| g@) =~= before.push(g@));
        }
        i = i + 1;
    }
    proof {
        if i < clusters@.len() {
            lemma_bursts_stop(rows@, cs, i as int);
        } else {
            assert(cs.take(i as int) =~= cs);
        }
    }
    out
}

proof fn lemma_group_in_bounds(
    groups: Seq<Seq<usize>>,
    times: Seq<i64>,
    n: int,
    gap: int,
    g: int,
)
    requires
        is_clustering(groups, times, n, gap),
        0 <= g < groups.len(),
    ensures
        groups[g][0] + groups[g].len() <= n,
{
    if g < groups.len() - 1 {
        lemma_runs_ascend(groups, times, n, gap, g, groups.len() - 1);
    }
}

} // verus!
