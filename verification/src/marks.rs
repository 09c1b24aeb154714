//! Marking photos: keep or reject, stars, and a colour.
//!
//! A mark belongs to the shot, not to a file: it covers the RAW and the JPEG file
//! alike. The three parts of a mark are set apart from each other.
use vstd::prelude::*;

use crate::filter::{
    clamp_stars,
    color_of,
    holders,
    normalize_color,
    placeholder_list,
    stars_in_range,
};
use crate::text::{
    cat3,
    lemma_text_le_antisymmetric,
    lemma_text_le_transitive,
    lemma_views_push,
    opt_view,
    same,
    sort_strings,
    sorted_texts,
    text_le,
    views,
};

verus! {

/// How many numbers go into one query. SQLite takes no more than 999.
pub const ID_CHUNK: usize = 400;

/// Reads the mark of a shot.
pub const SELECT_MARK: &'static str = "SELECT decision, stars, color FROM decisions WHERE pair_key = ?1";

/// Writes the mark of a shot.
pub const WRITE_MARK: &'static str = "INSERT INTO decisions(pair_key, decision, stars, color, updated_at) VALUES(?1, ?2, ?3, ?4, ?5) ON CONFLICT(pair_key) DO UPDATE SET decision = ?2, stars = ?3, color = ?4, updated_at = ?5";

/// The mark of a shot.
#[derive(Debug, Clone)]
pub struct Mark {
    /// keep, reject or none.
    pub decision: String,
    pub stars: i64,
    /// A colour, or empty.
    pub color: String,
}

/// What a `Mark` holds.
pub struct MarkModel {
    pub decision: Seq<char>,
    pub stars: i64,
    pub color: Seq<char>,
}

impl View for Mark {
    type V = MarkModel;

    open spec fn view(&self) -> MarkModel {
        MarkModel { decision: self.decision@, stars: self.stars, color: self.color@ }
    }
}

/// The mark of a shot that was not marked yet.
pub open spec fn unmarked() -> MarkModel {
    MarkModel { decision: "none"@, stars: 0, color: Seq::empty() }
}

/// A change of a mark; what is absent stays as it is.
#[derive(Debug, Clone)]
pub struct MarkPatch {
    pub decision: Option<String>,
    pub stars: Option<i64>,
    /// Empty to take the colour away.
    pub color: Option<String>,
}

/// What a `MarkPatch` holds.
pub struct PatchModel {
    pub decision: Option<Seq<char>>,
    pub stars: Option<i64>,
    pub color: Option<Seq<char>>,
}

impl View for MarkPatch {
    type V = PatchModel;

    open spec fn view(&self) -> PatchModel {
        PatchModel {
            decision: opt_view(self.decision),
            stars: self.stars,
            color: opt_view(self.color),
        }
    }
}

pub open spec fn str_view(s: Option<&str>) -> Option<Seq<char>> {
    match s {
        Some(t) => Some(t@),
        None => None,
    }
}

/// One of the three decisions; any other word changes nothing.
pub open spec fn decision_of(d: Option<Seq<char>>) -> Option<Seq<char>> {
    match d {
        Some(s) => if s == "keep"@ || s == "reject"@ || s == "none"@ {
            Some(s)
        } else {
            None
        },
        None => None,
    }
}

pub fn normalize_decision(d: Option<&str>) -> (r: Option<&'static str>)
    ensures
        (match r {
            Some(s) => Some(s@),
            None => None,
        }) == decision_of(str_view(d)),
{
    match d {
        Some(s) => if same(s, "keep") {
            Some("keep")
        } else if same(s, "reject") {
            Some("reject")
        } else if same(s, "none") {
            Some("none")
        } else {
            None
        },
        None => None,
    }
}

/// The change that a request asks for. A word that is no colour takes the colour
/// away; no word at all leaves it.
pub open spec fn patch_of(
    decision: Option<Seq<char>>,
    stars: Option<i64>,
    color: Option<Seq<char>>,
) -> PatchModel {
    PatchModel {
        decision: decision_of(decision),
        stars: match stars {
            Some(n) => Some(stars_in_range(n)),
            None => None,
        },
        color: match color {
            Some(c) => match color_of(Some(c)) {
                Some(v) => Some(v),
                None => Some(Seq::empty()),
            },
            None => None,
        },
    }
}

pub fn mark_patch(decision: Option<&str>, stars: Option<i64>, color: Option<&str>) -> (r: MarkPatch)
    ensures
        r@ == patch_of(str_view(decision), stars, str_view(color)),
{
    let decision = match normalize_decision(decision) {
        Some(s) => Some(s.to_string()),
        None => None,
    };
    let stars = match stars {
        Some(n) => Some(clamp_stars(n)),
        None => None,
    };
    let color = match color {
        Some(c) => match normalize_color(Some(c)) {
            Some(v) => Some(v),
            None => {
                let e = String::new();
                assert(e@ =~= Seq::<char>::empty());
                Some(e)
            },
        },
        None => None,
    };
    MarkPatch { decision, stars, color }
}

/// A mark after a change.
pub open spec fn patched(old: Option<MarkModel>, p: PatchModel) -> MarkModel {
    let m = match old {
        Some(m) => m,
        None => unmarked(),
    };
    MarkModel {
        decision: match p.decision {
            Some(d) => d,
            None => m.decision,
        },
        stars: match p.stars {
            Some(n) => n,
            None => m.stars,
        },
        color: match p.color {
            Some(c) => c,
            None => m.color,
        },
    }
}

pub open spec fn mark_view(m: Option<Mark>) -> Option<MarkModel> {
    match m {
        Some(x) => Some(x@),
        None => None,
    }
}

/// Applies a change to the mark of a shot.
pub fn apply_patch(old: Option<Mark>, p: &MarkPatch) -> (r: Mark)
    ensures
        r@ == patched(mark_view(old), p@),
{
    let base = match old {
        Some(m) => m,
        None => {
            let color = String::new();
            assert(color@ =~= Seq::<char>::empty());
            Mark { decision: "none".to_string(), stars: 0, color }
        },
    };
    let decision = match &p.decision {
        Some(d) => d.clone(),
        None => base.decision,
    };
    let stars: i64 = match p.stars {
        Some(n) => n,
        None => base.stars,
    };
    let color = match &p.color {
        Some(c) => c.clone(),
        None => base.color,
    };
    Mark { decision, stars, color }
}

/// A mark as it can be stored: a known decision, a number of stars in range, and a
/// known colour or none.
pub open spec fn is_valid_mark(m: MarkModel) -> bool {
    &&& decision_of(Some(m.decision)) == Some(m.decision)
    &&& 0 <= m.stars <= 5
    &&& m.color.len() == 0 || crate::filter::is_color(m.color)
}

/// Marks stay valid, whatever is asked for.
pub proof fn law_marks_stay_valid(
    old: Option<MarkModel>,
    decision: Option<Seq<char>>,
    stars: Option<i64>,
    color: Option<Seq<char>>,
)
    requires
        old matches Some(m) ==> is_valid_mark(m),
    ensures
        is_valid_mark(patched(old, patch_of(decision, stars, color))),
{
}

/// The parts of a mark are independent: what a request does not name, it does not
/// change.
pub proof fn law_parts_are_independent(
    m: MarkModel,
    decision: Option<Seq<char>>,
    stars: Option<i64>,
    color: Option<Seq<char>>,
)
    ensures
        patched(Some(m), patch_of(None, stars, color)).decision == m.decision,
        patched(Some(m), patch_of(decision, None, color)).stars == m.stars,
        patched(Some(m), patch_of(decision, stars, None)).color == m.color,
        patched(Some(m), patch_of(None, None, None)) == m,
{
}

/// Clearing resets decision and stars together, and an empty colour takes the
/// colour away and nothing else.
pub proof fn law_clearing_clears(m: MarkModel)
    ensures
        patched(Some(m), patch_of(Some("none"@), Some(0), None)) == (MarkModel {
            decision: "none"@,
            stars: 0,
            color: m.color,
        }),
        patched(Some(m), patch_of(None, None, Some(Seq::empty()))) == (MarkModel {
            color: Seq::empty(),
            ..m
        }),
{
    let e = Seq::<char>::empty();
    assert(crate::text::trim_front(e) == e);
    assert(crate::text::trim_back(e) == e);
    assert(crate::text::ascii_lower(e) =~= e);
    reveal_strlit("red");
    reveal_strlit("yellow");
    reveal_strlit("green");
    reveal_strlit("blue");
    reveal_strlit("purple");
}

/// A request takes effect: the decision that it names is the decision of the shot
/// afterwards, and so are the stars, brought into the range from 0 to 5, and the colour,
/// in whatever letter case and with whatever space around it. A word that is no decision
/// changes none, and one that is no colour takes the colour away.
pub proof fn law_requests_take_effect(
    old: MarkModel,
    decision: Seq<char>,
    stars: i64,
    color: Seq<char>,
)
    ensures
        ({
            let m = patched(Some(old), patch_of(Some(decision), Some(stars), Some(color)));
            let word = crate::text::ascii_lower(crate::text::trimmed(color));
            &&& decision == "keep"@ || decision == "reject"@ || decision == "none"@ ==> m.decision
                == decision
            &&& decision != "keep"@ && decision != "reject"@ && decision != "none"@ ==> m.decision
                == old.decision
            &&& 0 <= stars <= 5 ==> m.stars == stars
            &&& stars > 5 ==> m.stars == 5
            &&& stars < 0 ==> m.stars == 0
            &&& word == "red"@ || word == "yellow"@ || word == "green"@ || word == "blue"@ || word
                == "purple"@ ==> m.color == word
            &&& word != "red"@ && word != "yellow"@ && word != "green"@ && word != "blue"@ && word
                != "purple"@ ==> m.color == Seq::<char>::empty()
        }),
        patched(None, patch_of(None, None, None)) == (MarkModel {
            decision: "none"@,
            stars: 0,
            color: Seq::empty(),
        }),
{
}

/// To mark the same photos the same way twice is to mark them once.
pub proof fn law_marking_twice_is_marking_once(
    old: Option<MarkModel>,
    decision: Option<Seq<char>>,
    stars: Option<i64>,
    color: Option<Seq<char>>,
)
    ensures
        ({
            let p = patch_of(decision, stars, color);
            patched(Some(patched(old, p)), p) == patched(old, p)
        }),
{
}

// ---------------------------------------------------------------------------
// From photos to shots
// ---------------------------------------------------------------------------

/// The query for the shots of `n` photos.
pub fn pair_keys_sql(n: usize) -> (r: String)
    ensures
        r@ == "SELECT DISTINCT pair_key FROM photos WHERE id IN ("@ + holders(n as nat) + ")"@,
{
    let list = placeholder_list(n);
    cat3("SELECT DISTINCT pair_key FROM photos WHERE id IN (", list.as_str(), ")")
}

/// The end of the chunk that starts at `from`.
pub open spec fn chunk_end(from: int, n: int, size: int) -> int {
    if from + size <= n {
        from + size
    } else {
        n
    }
}

/// The bounds of the chunks of at most `size` that `from..n` is cut into.
pub open spec fn chunks_from(from: int, n: int, size: int) -> Seq<(usize, usize)>
    decreases n - from,
{
    if from >= n || size <= 0 {
        Seq::empty()
    } else {
        seq![(from as usize, chunk_end(from, n, size) as usize)] + chunks_from(
            chunk_end(from, n, size),
            n,
            size,
        )
    }
}

/// Cuts `n` items into chunks of at most `size`, in order.
pub fn chunk_bounds(n: usize, size: usize) -> (r: Vec<(usize, usize)>)
    requires
        size > 0,
    ensures
        r@ == chunks_from(0, n as int, size as int),
{
    let mut out: Vec<(usize, usize)> = Vec::new();
    let mut from: usize = 0;
    assert(out@ + chunks_from(0, n as int, size as int) =~= chunks_from(0, n as int, size as int));
    while from < n
        invariant
            size > 0,
            from <= n,
            out@ + chunks_from(from as int, n as int, size as int) == chunks_from(
                0,
                n as int,
                size as int,
            ),
        decreases n - from,
    {
        let end: usize = if size <= n - from {
            from + size
        } else {
            n
        };
        proof {
            let tail = chunks_from(end as int, n as int, size as int);
            assert(out@ + (seq![(from, end)] + tail) =~= out@.push((from, end)) + tail);
        }
        out.push((from, end));
        from = end;
    }
    assert(out@ + chunks_from(from as int, n as int, size as int) =~= out@);
    out
}

/// The chunks follow on each other, cover everything, and none is too large for a
/// query.
pub proof fn law_chunks_cover_in_order(n: int, size: int, from: int)
    requires
        0 <= from <= n <= usize::MAX,
        0 < size,
    ensures
        ({
            let c = chunks_from(from, n, size);
            &&& from < n ==> c.len() > 0 && c[0].0 == from && c.last().1 == n
            &&& forall|i: int|
                0 <= i < c.len() ==> (#[trigger] c[i]).0 < c[i].1 && c[i].1 - c[i].0 <= size
            &&& forall|i: int| 0 <= i < c.len() - 1 ==> (#[trigger] c[i]).1 == c[i + 1].0
        }),
    decreases n - from,
{
    if from < n {
        let e = chunk_end(from, n, size);
        law_chunks_cover_in_order(n, size, e);
        let c = chunks_from(from, n, size);
        let t = chunks_from(e, n, size);
        assert(forall|i: int| 0 < i < c.len() ==> #[trigger] c[i] == t[i - 1]);
        assert(c[0] == (from as usize, e as usize));
        if e < n {
            assert(c.last() == t.last());
            assert(c[1] == t[0]);
        }
        assert forall|i: int| 0 <= i < c.len() - 1 implies (#[trigger] c[i]).1 == c[i + 1].0 by {
            if i > 0 {
                assert(c[i] == t[i - 1] && c[i + 1] == t[i]);
                assert(t[i - 1].1 == t[i].0);
            } else {
                assert(c[1] == t[0]);
            }
        }
    }
}

/// The texts of `r` are those of `s`, each once and in order.
pub open spec fn is_distinct_sorted(r: Seq<Seq<char>>, s: Seq<Seq<char>>) -> bool {
    &&& sorted_texts(r)
    &&& forall|i: int, j: int| 0 <= i < j < r.len() ==> #[trigger] r[i] != #[trigger] r[j]
    &&& forall|t: Seq<char>| r.contains(t) <==> s.contains(t)
}

/// The shots among `keys`, each once. The two files of a shot give the same key,
/// so a shot is marked, and counted, once.
pub fn distinct_keys(keys: Vec<String>) -> (r: Vec<String>)
    ensures
        is_distinct_sorted(views(r@), views(keys@)),
{
    let mut sorted = keys;
    sort_strings(&mut sorted);
    let ghost all = views(sorted@);
    let mut out: Vec<String> = Vec::new();
    proof {
        assert forall|t: Seq<char>| all.contains(t) <==> views(keys@).contains(t) by {
            lemma_same_texts(sorted@, keys@, t);
            lemma_same_texts(keys@, sorted@, t);
        }
    }
    for i in 0..sorted.len()
        invariant
            all == views(sorted@),
            sorted_texts(all),
            sorted_texts(views(out@)),
            forall|a: int, b: int|
                0 <= a < b < out@.len() ==> #[trigger] views(out@)[a] != #[trigger] views(out@)[b],
            forall|t: Seq<char>| views(out@).contains(t) <==> all.take(i as int).contains(t),
            i > 0 ==> out@.len() > 0 && views(out@).last() == all[i - 1],
    {
        let fresh = out.len() == 0 || !same(out[out.len() - 1].as_str(), sorted[i].as_str());
        let ghost before = views(out@);
        let ghost t = all[i as int];
        proof {
            assert(t == sorted@[i as int]@);
            assert(all.take(i + 1) =~= all.take(i as int).push(t));
        }
        if fresh {
            let s = sorted[i].clone();
            proof {
                lemma_views_push(out@, s);
                lemma_new_last(before, all, i as int);
            }
            out.push(s);
        }
        proof {
            let now = views(out@);
            assert forall|x: Seq<char>| now.contains(x) <==> all.take(i + 1).contains(x) by {
                lemma_contains_push(all.take(i as int), t, x);
                if fresh {
                    lemma_contains_push(before, t, x);
                } else {
                    assert(before.last() == t);
                    assert(before.contains(t));
                }
            }
        }
    }
    assert(all.take(sorted@.len() as int) =~= all);
    out
}

proof fn lemma_contains_push(s: Seq<Seq<char>>, t: Seq<char>, x: Seq<char>)
    ensures
        s.push(t).contains(x) <==> s.contains(x) || x == t,
{
    let p = s.push(t);
    if s.contains(x) {
        let k = choose|k: int| 0 <= k < s.len() && s[k] == x;
        assert(p[k] == x);
    }
    if x == t {
        assert(p[s.len() as int] == x);
    }
    if p.contains(x) && x != t {
        let k = choose|k: int| 0 <= k < p.len() && p[k] == x;
        assert(s[k] == x);
    }
}

/// Behind the distinct texts of `all[..i]`, a text other than the last of them is
/// new, and comes after all of them.
proof fn lemma_new_last(before: Seq<Seq<char>>, all: Seq<Seq<char>>, i: int)
    requires
        0 <= i < all.len(),
        sorted_texts(all),
        sorted_texts(before),
        forall|a: int, b: int|
            0 <= a < b < before.len() ==> #[trigger] before[a] != #[trigger] before[b],
        forall|t: Seq<char>| before.contains(t) <==> all.take(i).contains(t),
        i > 0 ==> before.len() > 0 && before.last() == all[i - 1],
        before.len() > 0 ==> before.last() != all[i],
    ensures
        ({
            let p = before.push(all[i]);
            &&& sorted_texts(p)
            &&& forall|a: int, b: int| 0 <= a < b < p.len() ==> #[trigger] p[a] != #[trigger] p[b]
        }),
{
    let p = before.push(all[i]);
    if i == 0 {
        if before.len() > 0 {
            assert(before.contains(before[0]));
            assert(all.take(0).contains(before[0]));
        }
    } else {
        assert(text_le(all[i - 1], all[i]));
        assert forall|a: int| 0 <= a < before.len() implies text_le(#[trigger] before[a], all[i])
            && before[a] != all[i] by {
            if a < before.len() - 1 {
                assert(text_le(before[a], before[before.len() - 1]));
                if before[a] == all[i] {
                    lemma_text_le_antisymmetric(all[i - 1], all[i]);
                }
                lemma_text_le_transitive(before[a], all[i - 1], all[i]);
            }
        }
    }
}

proof fn lemma_same_texts(a: Seq<String>, b: Seq<String>, t: Seq<char>)
    requires
        a.to_multiset() == b.to_multiset(),
    ensures
        views(a).contains(t) ==> views(b).contains(t),
{
    if views(a).contains(t) {
        let k = choose|k: int| 0 <= k < a.len() && views(a)[k] == t;
        a.to_multiset_ensures();
        b.to_multiset_ensures();
        assert(a.contains(a[k]));
        assert(a.to_multiset().count(a[k]) > 0);
        assert(b.to_multiset().count(a[k]) > 0);
        assert(b.contains(a[k]));
        let j = choose|j: int| 0 <= j < b.len() && b[j] == a[k];
        assert(views(b)[j] == t);
    }
}

} // verus!
