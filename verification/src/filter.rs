//! Filtering the library: from what the user asks for to the condition of a query.
//!
//! Values that come from the user never enter the text of a query. They are handed
//! over beside it, in the order of the placeholders.
use vstd::prelude::*;

use crate::pairing::{trim_separators, trim_seps};
use crate::text::{
    ascii_lower,
    chars_of,
    join,
    joined,
    lemma_views_push,
    lower,
    occurs_at,
    opt_view,
    same,
    to_ascii_lower,
    trim,
    trimmed,
    views,
};

verus! {

/// The day of a photo. The capture time is the camera's wall clock and shown as it
/// is; the time of change is a moment, and shown in local time. To mix the two up
/// would move evening photos to the next day.
pub const DAY_KEY: &'static str = "CASE WHEN p.taken_at_corrected IS NOT NULL THEN strftime('%Y-%m-%d', p.taken_at_corrected, 'unixepoch') ELSE strftime('%Y-%m-%d', p.mtime, 'unixepoch', 'localtime') END";

/// The time of a photo to the second, by the same rule.
pub const TIME_TEXT: &'static str = "CASE WHEN p.taken_at_corrected IS NOT NULL THEN strftime('%Y-%m-%d %H:%M:%S', p.taken_at_corrected, 'unixepoch') ELSE strftime('%Y-%m-%d %H:%M:%S', p.mtime, 'unixepoch', 'localtime') END";

pub const HAS_RAW: &'static str = "EXISTS(SELECT 1 FROM photos a WHERE a.pair_key = p.pair_key AND a.file_kind = 'raw')";

pub const HAS_JPG: &'static str = "EXISTS(SELECT 1 FROM photos b WHERE b.pair_key = p.pair_key AND b.file_kind = 'jpeg')";

/// A shot without a row among the decisions was not looked at yet.
pub const DECISION: &'static str = "COALESCE(d.decision, 'none')";

pub const STARS: &'static str = "COALESCE(d.stars, 0)";

pub const COLOR: &'static str = "COALESCE(d.color, '')";

/// Every query with a condition of this module selects from here.
pub const FROM_PHOTOS: &'static str = "FROM photos p LEFT JOIN decisions d ON d.pair_key = p.pair_key";

/// Stands for the absence of a value: no serial number, no capture time, no lens.
pub const NONE_KEY: &'static str = "__none__";

/// Below this sharpness a photo counts as blurred.
pub const BLUR_THRESHOLD: &'static str = "25";

/// From this share of blown-out pixels on a photo counts as overexposed.
pub const OVEREXPOSED_THRESHOLD: &'static str = "0.02";

/// From this share of black pixels on a photo counts as underexposed.
pub const UNDEREXPOSED_THRESHOLD: &'static str = "0.25";

/// Below this ratio of height to width an eye counts as closed.
pub const CLOSED_THRESHOLD: &'static str = "0.21";

/// A value handed to a query. Floating-point bounds are whole numbers, or the
/// largest number there is.
#[derive(Debug, Clone)]
pub enum SqlArg {
    Text(String),
    Integer(i64),
    Real(i64),
    RealMax,
}

/// What a `SqlArg` holds.
pub enum ArgModel {
    Text(Seq<char>),
    Integer(i64),
    Real(i64),
    RealMax,
}

impl View for SqlArg {
    type V = ArgModel;

    open spec fn view(&self) -> ArgModel {
        match *self {
            SqlArg::Text(s) => ArgModel::Text(s@),
            SqlArg::Integer(n) => ArgModel::Integer(n),
            SqlArg::Real(n) => ArgModel::Real(n),
            SqlArg::RealMax => ArgModel::RealMax,
        }
    }
}

pub open spec fn args_view(a: Seq<SqlArg>) -> Seq<ArgModel> {
    a.map_values(|x: SqlArg| x@)
}

// ---------------------------------------------------------------------------
// Search texts
// ---------------------------------------------------------------------------

/// A character that means something in a LIKE pattern.
pub open spec fn is_wild(c: char) -> bool {
    c == '\\' || c == '%' || c == '_'
}

/// `s` with a backslash in front of each character that means something in a LIKE
/// pattern.
pub open spec fn escaped(s: Seq<char>) -> Seq<char>
    decreases s.len(),
{
    if s.len() == 0 {
        Seq::empty()
    } else if is_wild(s.last()) {
        escaped(s.drop_last()).push('\\').push(s.last())
    } else {
        escaped(s.drop_last()).push(s.last())
    }
}

/// Makes a search text stand for itself in a LIKE pattern.
pub fn escape_like(s: &str) -> (r: String)
    ensures
        r@ == escaped(s@),
{
    let v = chars_of(s);
    let mut out = String::new();
    assert(out@ =~= escaped(v@.take(0)));
    for i in 0..v.len()
        invariant
            out@ == escaped(v@.take(i as int)),
    {
        proof {
            assert(v@.take(i + 1).drop_last() =~= v@.take(i as int));
        }
        let c = v[i];
        if c == '\\' || c == '%' || c == '_' {
            out.push('\\');
        }
        out.push(c);
    }
    assert(v@.take(v@.len() as int) =~= v@);
    out
}

/// A piece of a LIKE pattern.
pub enum LikePiece {
    /// `%`: any characters, or none.
    AnyRun,
    /// `_`: any one character.
    AnyOne,
    /// A character that stands for itself, by its code point.
    Lit(u32),
}

/// The pieces of a LIKE pattern whose escape character is the backslash.
pub open spec fn like_pieces(p: Seq<char>) -> Seq<LikePiece>
    decreases p.len(),
{
    if p.len() == 0 {
        Seq::empty()
    } else if p[0] == '\\' && p.len() > 1 {
        seq![LikePiece::Lit(p[1] as u32)] + like_pieces(p.skip(2))
    } else if p[0] == '%' {
        seq![LikePiece::AnyRun] + like_pieces(p.skip(1))
    } else if p[0] == '_' {
        seq![LikePiece::AnyOne] + like_pieces(p.skip(1))
    } else {
        seq![LikePiece::Lit(p[0] as u32)] + like_pieces(p.skip(1))
    }
}

/// A text matches a LIKE pattern; ASCII letters match in either case.
pub open spec fn like(pieces: Seq<LikePiece>, t: Seq<char>) -> bool
    decreases pieces.len(),
{
    if pieces.len() == 0 {
        t.len() == 0
    } else {
        match pieces[0] {
            LikePiece::Lit(c) => t.len() > 0 && lower(t[0]) == lower(c as char) && like(
                pieces.skip(1),
                t.skip(1),
            ),
            LikePiece::AnyOne => t.len() > 0 && like(pieces.skip(1), t.skip(1)),
            LikePiece::AnyRun => exists|k: int|
                0 <= k <= t.len() && like(pieces.skip(1), #[trigger] t.skip(k)),
        }
    }
}

/// A text whose every character stands for itself.
pub open spec fn literals(q: Seq<char>) -> Seq<LikePiece>
    decreases q.len(),
{
    if q.len() == 0 {
        Seq::empty()
    } else {
        seq![LikePiece::Lit(q[0] as u32)] + literals(q.skip(1))
    }
}

proof fn lemma_escaped_front(q: Seq<char>)
    requires
        q.len() > 0,
    ensures
        escaped(q) == (if is_wild(q[0]) {
            seq!['\\', q[0]]
        } else {
            seq![q[0]]
        }) + escaped(q.skip(1)),
    decreases q.len(),
{
    let head = if is_wild(q[0]) {
        seq!['\\', q[0]]
    } else {
        seq![q[0]]
    };
    if q.len() == 1 {
        assert(q.drop_last() =~= Seq::<char>::empty());
        assert(q.skip(1) =~= Seq::<char>::empty());
        assert(escaped(q) =~= head + escaped(q.skip(1)));
    } else {
        lemma_escaped_front(q.drop_last());
        assert(q.drop_last().skip(1) =~= q.skip(1).drop_last());
        assert(q.drop_last()[0] == q[0]);
        assert(q.skip(1).last() == q.last());
        assert(escaped(q) =~= head + escaped(q.skip(1)));
    }
}

/// In an escaped text every character stands for itself.
pub proof fn law_escaped_text_is_literal(q: Seq<char>, tail: Seq<char>)
    requires
        tail.len() == 0 || tail == seq!['%'],
    ensures
        like_pieces(escaped(q) + tail) == literals(q) + like_pieces(tail),
    decreases q.len(),
{
    if q.len() == 0 {
        assert(escaped(q) + tail =~= tail);
        assert(literals(q) + like_pieces(tail) =~= like_pieces(tail));
    } else {
        lemma_escaped_front(q);
        let rest = escaped(q.skip(1)) + tail;
        law_escaped_text_is_literal(q.skip(1), tail);
        let p = escaped(q) + tail;
        if is_wild(q[0]) {
            assert(p[0] == '\\' && p[1] == q[0]);
            assert(p.skip(2) =~= rest);
        } else {
            assert(p[0] == q[0]);
            assert(p.skip(1) =~= rest);
        }
        assert(like_pieces(p) =~= seq![LikePiece::Lit(q[0] as u32)] + like_pieces(rest));
        assert(like_pieces(p) =~= literals(q) + like_pieces(tail));
    }
}

/// The pattern for a search text: the text itself, anywhere.
pub open spec fn search_pattern(q: Seq<char>) -> Seq<char> {
    seq!['%'] + escaped(q) + seq!['%']
}

proof fn lemma_like_literals(q: Seq<char>, t: Seq<char>)
    ensures
        like(literals(q) + seq![LikePiece::AnyRun], t) <==> occurs_at(
            ascii_lower(t),
            ascii_lower(q),
            0,
        ),
    decreases q.len(),
{
    let p = literals(q) + seq![LikePiece::AnyRun];
    let lt = ascii_lower(t);
    let lq = ascii_lower(q);
    if q.len() == 0 {
        assert(p =~= seq![LikePiece::AnyRun]);
        assert(p.skip(1).len() == 0);
        assert(like(p.skip(1), t.skip(t.len() as int)));
        assert(lt.subrange(0, 0) =~= lq);
        assert(like(p, t));
    } else {
        assert(p[0] == LikePiece::Lit(q[0] as u32));
        assert(p.skip(1) =~= literals(q.skip(1)) + seq![LikePiece::AnyRun]);
        if t.len() > 0 {
            lemma_like_literals(q.skip(1), t.skip(1));
            let lt1 = ascii_lower(t.skip(1));
            let lq1 = ascii_lower(q.skip(1));
            if q.len() <= t.len() {
                let a = lt.subrange(0, lq.len() as int);
                let b = lt1.subrange(0, lq1.len() as int);
                assert(a[0] == lower(t[0]) && lq[0] == lower(q[0]));
                assert(a.skip(1) =~= b);
                assert(lq.skip(1) =~= lq1);
                if lower(t[0]) == lower(q[0]) && b == lq1 {
                    assert(a =~= seq![a[0]] + a.skip(1));
                    assert(lq =~= seq![lq[0]] + lq.skip(1));
                    assert(a =~= lq);
                }
                assert(occurs_at(lt, lq, 0) == (lower(t[0]) == lower(q[0]) && occurs_at(
                    lt1,
                    lq1,
                    0,
                )));
            }
            assert(like(p, t) == (lower(t[0]) == lower(q[0]) && like(p.skip(1), t.skip(1))));
        }
    }
}

/// A search finds exactly the texts that contain the search text, up to the case
/// of ASCII letters: percent signs, underscores and backslashes in it are
/// characters like any other.
pub proof fn law_search_is_literal(q: Seq<char>, t: Seq<char>)
    ensures
        like(like_pieces(search_pattern(q)), t) <==> exists|at: int|
            occurs_at(ascii_lower(t), ascii_lower(q), at),
{
    let pieces = like_pieces(search_pattern(q));
    let tail = seq![LikePiece::AnyRun];
    assert(like_pieces(seq!['%']) =~= tail) by {
        assert(seq!['%'].skip(1) =~= Seq::<char>::empty());
        assert(like_pieces(seq!['%'].skip(1)) =~= Seq::<LikePiece>::empty());
    }
    law_escaped_text_is_literal(q, seq!['%']);
    let p = search_pattern(q);
    assert(p[0] == '%');
    assert(p.skip(1) =~= escaped(q) + seq!['%']);
    let rest = literals(q) + tail;
    assert(pieces =~= seq![LikePiece::AnyRun] + rest);
    assert(pieces.skip(1) =~= rest);
    let lt = ascii_lower(t);
    let lq = ascii_lower(q);
    assert forall|k: int| 0 <= k <= t.len() implies (like(rest, #[trigger] t.skip(k))
        <==> occurs_at(lt, lq, k)) by {
        lemma_like_literals(q, t.skip(k));
        let lk = ascii_lower(t.skip(k));
        if k + q.len() <= t.len() {
            assert(lk.subrange(0, lq.len() as int) =~= lt.subrange(k, k + lq.len()));
        }
    }
    if exists|at: int| occurs_at(lt, lq, at) {
        let at = choose|at: int| occurs_at(lt, lq, at);
        assert(like(rest, t.skip(at)));
        assert(like(pieces, t));
    }
    if like(pieces, t) {
        let k = choose|k: int|
            0 <= k <= t.len() && like(pieces.skip(1), #[trigger] t.skip(k));
        assert(like(rest, t.skip(k)));
        assert(occurs_at(lt, lq, k));
    }
}

// ---------------------------------------------------------------------------
// Directories
// ---------------------------------------------------------------------------

/// What the path of everything below a directory starts with: the directory and a
/// separator behind it. Empty for the root, which leaves out nothing.
pub open spec fn prefix_of(dir: Seq<char>, sep: char) -> Seq<char> {
    let t = trim_seps(dir);
    if t.len() == 0 {
        Seq::empty()
    } else {
        t.push(sep)
    }
}

pub fn dir_prefix(dir: &str, sep: char) -> (r: String)
    ensures
        r@ == prefix_of(dir@, sep),
{
    let mut t = trim_separators(dir);
    let n: usize = chars_of(t.as_str()).len();
    if n == 0 {
        let e = String::new();
        assert(e@ =~= Seq::<char>::empty());
        return e;
    }
    t.push(sep);
    t
}

/// What `substr(path, 1, length(prefix)) = prefix` says of a path.
pub open spec fn in_dir(path: Seq<char>, dir: Seq<char>, sep: char) -> bool {
    prefix_of(dir, sep).is_prefix_of(path)
}

/// A view that is limited to a directory shows what lies below it, and nothing of
/// a sibling whose name only starts alike: behind the directory's name there is
/// always a separator.
pub proof fn law_scope_ends_at_a_separator(
    dir: Seq<char>,
    rest: Seq<char>,
    path: Seq<char>,
    sep: char,
)
    requires
        trim_seps(dir).len() > 0,
    ensures
        in_dir(trim_seps(dir) + seq![sep] + rest, dir, sep),
        in_dir(path, dir, sep) ==> {
            &&& trim_seps(dir).is_prefix_of(path)
            &&& path.len() > trim_seps(dir).len()
            &&& path[trim_seps(dir).len() as int] == sep
        },
{
    let t = trim_seps(dir);
    let p = t.push(sep);
    assert((t + seq![sep] + rest).subrange(0, p.len() as int) =~= p);
    if in_dir(path, dir, sep) {
        assert(path.subrange(0, p.len() as int)[t.len() as int] == sep);
        assert(path.subrange(0, t.len() as int) =~= p.subrange(0, t.len() as int));
        assert(p.subrange(0, t.len() as int) =~= t);
    }
}

// ---------------------------------------------------------------------------
// Conditions
// ---------------------------------------------------------------------------

/// A condition under construction: its parts, and the values for the placeholders
/// of all parts in their order.
pub struct Cond {
    pub parts: Vec<String>,
    pub args: Vec<SqlArg>,
}

/// What a `Cond` holds.
pub struct CondModel {
    pub parts: Seq<Seq<char>>,
    pub args: Seq<ArgModel>,
}

impl View for Cond {
    type V = CondModel;

    open spec fn view(&self) -> CondModel {
        CondModel { parts: views(self.parts@), args: args_view(self.args@) }
    }
}

impl CondModel {
    /// One more part, with the values for its placeholders.
    pub open spec fn and(self, part: Seq<char>, args: Seq<ArgModel>) -> CondModel {
        CondModel { parts: self.parts.push(part), args: self.args + args }
    }
}

impl Cond {
    fn new() -> (r: Self)
        ensures
            r@ == (CondModel { parts: Seq::empty(), args: Seq::empty() }),
    {
        let c = Cond { parts: Vec::new(), args: Vec::new() };
        assert(c@.parts =~= Seq::<Seq<char>>::empty());
        assert(c@.args =~= Seq::<ArgModel>::empty());
        c
    }

    fn and0(&mut self, part: String)
        ensures
            final(self)@ == old(self)@.and(part@, Seq::empty()),
    {
        self.parts.push(part);
        assert(self@.parts =~= old(self)@.parts.push(part@));
        assert(self@.args =~= old(self)@.args + Seq::<ArgModel>::empty());
    }

    fn and1(&mut self, part: String, arg: SqlArg)
        ensures
            final(self)@ == old(self)@.and(part@, seq![arg@]),
    {
        self.parts.push(part);
        self.args.push(arg);
        assert(self@.parts =~= old(self)@.parts.push(part@));
        assert(self@.args =~= old(self)@.args + seq![arg@]);
    }

    fn and2(&mut self, part: String, a: SqlArg, b: SqlArg)
        ensures
            final(self)@ == old(self)@.and(part@, seq![a@, b@]),
    {
        self.parts.push(part);
        self.args.push(a);
        self.args.push(b);
        assert(self@.parts =~= old(self)@.parts.push(part@));
        assert(self@.args =~= old(self)@.args + seq![a@, b@]);
    }

    fn and_all(&mut self, part: String, args: Vec<SqlArg>)
        ensures
            final(self)@ == old(self)@.and(part@, args_view(args@)),
    {
        let mut more = args;
        self.parts.push(part);
        self.args.append(&mut more);
        assert(self@.parts =~= old(self)@.parts.push(part@));
        assert(self@.args =~= old(self)@.args + args_view(args@));
    }
}

/// What the user asks for. An absent value asks for nothing.
#[derive(Debug, Clone)]
pub struct PairFilter {
    /// both, rawOnly, jpgOnly or orphan; anything else asks for nothing.
    pub pair_state: Option<String>,
    /// A serial number, or `__none__`.
    pub camera_serial: Option<String>,
    /// A day as YYYY-MM-DD, or `__none__`.
    pub day: Option<String>,
    /// A part of the path.
    pub search: Option<String>,
    /// none, keep, reject or marked.
    pub decision: Option<String>,
    /// A number of stars; 0 asks for photos without stars.
    pub stars: Option<i64>,
    pub color: Option<String>,
    /// The order of the result.
    pub sort: Option<String>,
    /// Only photos in these directories.
    pub roots: Option<Vec<String>>,
    /// Only these photos.
    pub ids: Option<Vec<i64>>,
    /// blur, over, under or blink.
    pub quality: Option<String>,
    /// A lens, or `__none__`.
    pub lens: Option<String>,
    /// wide, normal, tele or super.
    pub focal: Option<String>,
    /// low, mid, high or veryHigh.
    pub iso: Option<String>,
}

/// What a `PairFilter` holds.
pub struct FilterModel {
    pub pair_state: Option<Seq<char>>,
    pub camera_serial: Option<Seq<char>>,
    pub day: Option<Seq<char>>,
    pub search: Option<Seq<char>>,
    pub decision: Option<Seq<char>>,
    pub stars: Option<i64>,
    pub color: Option<Seq<char>>,
    pub sort: Option<Seq<char>>,
    pub roots: Option<Seq<Seq<char>>>,
    pub ids: Option<Seq<i64>>,
    pub quality: Option<Seq<char>>,
    pub lens: Option<Seq<char>>,
    pub focal: Option<Seq<char>>,
    pub iso: Option<Seq<char>>,
}

pub open spec fn roots_view(r: Option<Vec<String>>) -> Option<Seq<Seq<char>>> {
    match r {
        Some(v) => Some(views(v@)),
        None => None,
    }
}

impl View for PairFilter {
    type V = FilterModel;

    open spec fn view(&self) -> FilterModel {
        FilterModel {
            pair_state: opt_view(self.pair_state),
            camera_serial: opt_view(self.camera_serial),
            day: opt_view(self.day),
            search: opt_view(self.search),
            decision: opt_view(self.decision),
            stars: self.stars,
            color: opt_view(self.color),
            sort: opt_view(self.sort),
            roots: roots_view(self.roots),
            ids: match self.ids {
                Some(v) => Some(v@),
                None => None,
            },
            quality: opt_view(self.quality),
            lens: opt_view(self.lens),
            focal: opt_view(self.focal),
            iso: opt_view(self.iso),
        }
    }
}

impl Default for PairFilter {
    /// Asks for nothing.
    fn default() -> (r: Self)
        ensures
            r@ == (FilterModel {
                pair_state: None,
                camera_serial: None,
                day: None,
                search: None,
                decision: None,
                stars: None,
                color: None,
                sort: None,
                roots: None,
                ids: None,
                quality: None,
                lens: None,
                focal: None,
                iso: None,
            }),
    {
        PairFilter {
            pair_state: None,
            camera_serial: None,
            day: None,
            search: None,
            decision: None,
            stars: None,
            color: None,
            sort: None,
            roots: None,
            ids: None,
            quality: None,
            lens: None,
            focal: None,
            iso: None,
        }
    }
}

/// Whether an optional text is the given one.
fn is_text(o: &Option<String>, t: &str) -> (r: bool)
    ensures
        r == (opt_view(*o) == Some(t@)),
{
    match o {
        Some(s) => same(s.as_str(), t),
        None => false,
    }
}

// ---- explicit photos ----

/// `n` placeholders with commas between them.
pub open spec fn holders(n: nat) -> Seq<char> {
    joined(Seq::new(n, |i: int| "?"@), ","@)
}

pub fn placeholder_list(n: usize) -> (r: String)
    ensures
        r@ == holders(n as nat),
{
    let mut parts: Vec<String> = Vec::new();
    for i in 0..n
        invariant
            views(parts@) =~= Seq::new(i as nat, |j: int| "?"@),
    {
        let hole = "?".to_string();
        proof {
            lemma_views_push(parts@, hole);
            assert(Seq::new((i + 1) as nat, |j: int| "?"@) =~= Seq::new(
                i as nat,
                |j: int| "?"@,
            ).push("?"@));
        }
        parts.push(hole);
    }
    join(&parts, ",")
}

pub open spec fn by_ids(c: CondModel, ids: Option<Seq<i64>>) -> CondModel {
    match ids {
        Some(v) if v.len() > 0 => c.and(
            "p.id IN ("@ + holders(v.len()) + ")"@,
            v.map_values(|id: i64| ArgModel::Integer(id)),
        ),
        _ => c,
    }
}

fn add_ids(c: &mut Cond, ids: &Option<Vec<i64>>)
    ensures
        final(c)@ == by_ids(
            old(c)@,
            match *ids {
                Some(v) => Some(v@),
                None => None,
            },
        ),
{
    if let Some(v) = ids {
        if v.len() > 0 {
            let mut part = "p.id IN (".to_string();
            let list = placeholder_list(v.len());
            part.push_str(list.as_str());
            part.push_str(")");
            let mut args: Vec<SqlArg> = Vec::new();
            for i in 0..v.len()
                invariant
                    args_view(args@) =~= v@.take(i as int).map_values(
                        |id: i64| ArgModel::Integer(id),
                    ),
            {
                let ghost before = args_view(args@);
                args.push(SqlArg::Integer(v[i]));
                proof {
                    let f = |id: i64| ArgModel::Integer(id);
                    assert(args_view(args@) =~= before.push(ArgModel::Integer(v@[i as int])));
                    assert(v@.take(i + 1).map_values(f) =~= v@.take(i as int).map_values(f).push(
                        ArgModel::Integer(v@[i as int]),
                    ));
                }
            }
            assert(v@.take(v@.len() as int) =~= v@);
            c.and_all(part, args);
        }
    }
}

// ---- directories ----

/// The test whether a path starts with a prefix. The prefix is handed over twice:
/// for its length and for the comparison.
pub const SCOPE_TEST: &'static str = "substr(p.path, 1, length(?)) = ?";

/// The directories that limit a view: those other than the root.
pub open spec fn scope_prefixes(roots: Seq<Seq<char>>, sep: char) -> Seq<Seq<char>>
    decreases roots.len(),
{
    if roots.len() == 0 {
        Seq::empty()
    } else {
        let rest = scope_prefixes(roots.drop_last(), sep);
        let p = prefix_of(roots.last(), sep);
        if p.len() == 0 {
            rest
        } else {
            rest.push(p)
        }
    }
}

/// Each prefix twice.
pub open spec fn doubled(p: Seq<Seq<char>>) -> Seq<ArgModel>
    decreases p.len(),
{
    if p.len() == 0 {
        Seq::empty()
    } else {
        doubled(p.drop_last()).push(ArgModel::Text(p.last())).push(ArgModel::Text(p.last()))
    }
}

/// The text of the test whether a path lies in one of `n` directories.
pub open spec fn scope_text(n: nat) -> Seq<char> {
    if n == 0 {
        Seq::empty()
    } else {
        "("@ + joined(Seq::new(n, |i: int| SCOPE_TEST@), " OR "@) + ")"@
    }
}

pub open spec fn prefixes_in(roots: Option<Seq<Seq<char>>>, sep: char) -> Seq<Seq<char>> {
    match roots {
        Some(r) => scope_prefixes(r, sep),
        None => Seq::empty(),
    }
}

/// The test whether a path lies in one of the directories, and its values; an
/// empty text where the view is not limited.
pub fn scope_group(roots: &Option<Vec<String>>, sep: char) -> (r: (String, Vec<SqlArg>))
    ensures
        r.0@ == scope_text(prefixes_in(roots_view(*roots), sep).len()),
        args_view(r.1@) == doubled(prefixes_in(roots_view(*roots), sep)),
{
    let mut parts: Vec<String> = Vec::new();
    let mut args: Vec<SqlArg> = Vec::new();
    if let Some(v) = roots {
        let ghost all = views(v@);
        assert(args_view(args@) =~= Seq::<ArgModel>::empty());
        for i in 0..v.len()
            invariant
                all == views(v@),
                views(parts@) =~= Seq::new(
                    scope_prefixes(all.take(i as int), sep).len(),
                    |j: int| SCOPE_TEST@,
                ),
                args_view(args@) == doubled(scope_prefixes(all.take(i as int), sep)),
        {
            let prefix = dir_prefix(v[i].as_str(), sep);
            let ghost before = scope_prefixes(all.take(i as int), sep);
            proof {
                assert(all.take(i + 1).drop_last() =~= all.take(i as int));
                assert(all.take(i + 1).last() == v@[i as int]@);
            }
            let n: usize = chars_of(prefix.as_str()).len();
            if n > 0 {
                let ghost a0 = args_view(args@);
                let test = SCOPE_TEST.to_string();
                proof {
                    lemma_views_push(parts@, test);
                    assert(Seq::new(before.len() + 1, |j: int| SCOPE_TEST@) =~= Seq::new(
                        before.len(),
                        |j: int| SCOPE_TEST@,
                    ).push(SCOPE_TEST@));
                }
                parts.push(test);
                args.push(SqlArg::Text(prefix.clone()));
                args.push(SqlArg::Text(prefix));
                proof {
                    let more = before.push(prefix@);
                    assert(more.drop_last() =~= before);
                    assert(args_view(args@) =~= a0.push(ArgModel::Text(prefix@)).push(
                        ArgModel::Text(prefix@),
                    ));
                    assert(scope_prefixes(all.take(i + 1), sep) == more);
                }
            }
        }
        assert(all.take(v@.len() as int) =~= all);
    }
    let ghost all = prefixes_in(roots_view(*roots), sep);
    proof {
        if all.len() == 0 {
            assert(doubled(all) =~= Seq::<ArgModel>::empty());
            assert(args_view(args@) =~= Seq::<ArgModel>::empty());
        }
    }
    if parts.len() == 0 {
        let e = String::new();
        assert(e@ =~= Seq::<char>::empty());
        assert(views(parts@).len() == 0);
        return (e, args);
    }
    let mut text = "(".to_string();
    let tests = join(&parts, " OR ");
    text.push_str(tests.as_str());
    text.push_str(")");
    assert(views(parts@) =~= Seq::new(all.len(), |j: int| SCOPE_TEST@));
    (text, args)
}

pub open spec fn by_scope(c: CondModel, roots: Option<Seq<Seq<char>>>, sep: char) -> CondModel {
    let p = prefixes_in(roots, sep);
    if p.len() == 0 {
        c
    } else {
        c.and(scope_text(p.len()), doubled(p))
    }
}

fn add_scope(c: &mut Cond, roots: &Option<Vec<String>>, sep: char)
    ensures
        final(c)@ == by_scope(old(c)@, roots_view(*roots), sep),
{
    let (text, args) = scope_group(roots, sep);
    proof {
        reveal_strlit("(");
        let p = prefixes_in(roots_view(*roots), sep);
        if p.len() > 0 {
            assert(text@[0] == '(');
        }
    }
    let n: usize = chars_of(text.as_str()).len();
    if n > 0 {
        c.and_all(text, args);
    }
}

/// The scope as an addition to a condition.
pub open spec fn scope_suffix(n: nat) -> Seq<char> {
    if n == 0 {
        Seq::empty()
    } else {
        " AND "@ + scope_text(n)
    }
}

/// The scope as it is appended to a condition; empty where the view is not
/// limited.
pub fn scope_where(roots: &Option<Vec<String>>, sep: char) -> (r: (String, Vec<SqlArg>))
    ensures
        r.0@ == scope_suffix(prefixes_in(roots_view(*roots), sep).len()),
        args_view(r.1@) == doubled(prefixes_in(roots_view(*roots), sep)),
{
    let (text, args) = scope_group(roots, sep);
    proof {
        reveal_strlit("(");
        let p = prefixes_in(roots_view(*roots), sep);
        if p.len() > 0 {
            assert(text@[0] == '(');
        }
    }
    let n: usize = chars_of(text.as_str()).len();
    if n == 0 {
        (text, args)
    } else {
        (crate::text::cat(" AND ", text.as_str()), args)
    }
}

// ---- files of the pair ----

pub open spec fn by_pair_state(c: CondModel, state: Option<Seq<char>>) -> CondModel {
    if state == Some("both"@) {
        c.and("("@ + HAS_RAW@ + " AND "@ + HAS_JPG@ + ")"@, Seq::empty())
    } else if state == Some("rawOnly"@) {
        c.and("("@ + HAS_RAW@ + " AND NOT "@ + HAS_JPG@ + ")"@, Seq::empty())
    } else if state == Some("jpgOnly"@) {
        c.and("(NOT "@ + HAS_RAW@ + " AND "@ + HAS_JPG@ + ")"@, Seq::empty())
    } else if state == Some("orphan"@) {
        c.and("NOT ("@ + HAS_RAW@ + " AND "@ + HAS_JPG@ + ")"@, Seq::empty())
    } else {
        c
    }
}

fn both_files(head: &str, mid: &str) -> (r: String)
    ensures
        r@ == head@ + HAS_RAW@ + mid@ + HAS_JPG@ + ")"@,
{
    let mut s = head.to_string();
    s.push_str(HAS_RAW);
    s.push_str(mid);
    s.push_str(HAS_JPG);
    s.push_str(")");
    s
}

fn add_pair_state(c: &mut Cond, state: &Option<String>)
    ensures
        final(c)@ == by_pair_state(old(c)@, opt_view(*state)),
{
    if is_text(state, "both") {
        c.and0(both_files("(", " AND "));
    } else if is_text(state, "rawOnly") {
        c.and0(both_files("(", " AND NOT "));
    } else if is_text(state, "jpgOnly") {
        c.and0(both_files("(NOT ", " AND "));
    } else if is_text(state, "orphan") {
        c.and0(both_files("NOT (", " AND "));
    }
}

// ---- values that can be absent ----

/// A column has the given value, or no value where `__none__` is asked for. An
/// empty value asks for nothing.
pub open spec fn by_value(c: CondModel, column: Seq<char>, value: Option<Seq<char>>) -> CondModel {
    match value {
        Some(v) if v.len() > 0 => if v == NONE_KEY@ {
            c.and(column + " IS NULL"@, Seq::empty())
        } else {
            c.and(column + " = ?"@, seq![ArgModel::Text(v)])
        },
        _ => c,
    }
}

fn add_value(c: &mut Cond, column: &str, value: &Option<String>)
    ensures
        final(c)@ == by_value(old(c)@, column@, opt_view(*value)),
{
    if let Some(v) = value {
        let n: usize = chars_of(v.as_str()).len();
        if n > 0 {
            if same(v.as_str(), NONE_KEY) {
                c.and0(crate::text::cat(column, " IS NULL"));
            } else {
                c.and1(crate::text::cat(column, " = ?"), SqlArg::Text(v.clone()));
            }
        }
    }
}

/// The day of a photo as a column.
pub open spec fn day_column() -> Seq<char> {
    "("@ + DAY_KEY@ + ")"@
}

// ---- search ----

pub open spec fn by_search(c: CondModel, search: Option<Seq<char>>) -> CondModel {
    match search {
        Some(q) if trimmed(q).len() > 0 => c.and(
            "p.path LIKE ? ESCAPE '\\'"@,
            seq![ArgModel::Text(search_pattern(trimmed(q)))],
        ),
        _ => c,
    }
}

fn add_search(c: &mut Cond, search: &Option<String>)
    ensures
        final(c)@ == by_search(old(c)@, opt_view(*search)),
{
    if let Some(s) = search {
        let q = trim(s.as_str());
        let n: usize = chars_of(q.as_str()).len();
        if n > 0 {
            let mut pattern = String::new();
            pattern.push('%');
            let body = escape_like(q.as_str());
            pattern.push_str(body.as_str());
            pattern.push('%');
            assert(pattern@ =~= search_pattern(q@));
            c.and1("p.path LIKE ? ESCAPE '\\'".to_string(), SqlArg::Text(pattern));
        }
    }
}

// ---- marks ----

pub open spec fn by_decision(c: CondModel, decision: Option<Seq<char>>) -> CondModel {
    if decision == Some("none"@) {
        c.and(DECISION@ + " = 'none'"@, Seq::empty())
    } else if decision == Some("keep"@) {
        c.and(DECISION@ + " = 'keep'"@, Seq::empty())
    } else if decision == Some("reject"@) {
        c.and(DECISION@ + " = 'reject'"@, Seq::empty())
    } else if decision == Some("marked"@) {
        c.and(DECISION@ + " <> 'none'"@, Seq::empty())
    } else {
        c
    }
}

fn add_decision(c: &mut Cond, decision: &Option<String>)
    ensures
        final(c)@ == by_decision(old(c)@, opt_view(*decision)),
{
    if is_text(decision, "none") {
        c.and0(crate::text::cat(DECISION, " = 'none'"));
    } else if is_text(decision, "keep") {
        c.and0(crate::text::cat(DECISION, " = 'keep'"));
    } else if is_text(decision, "reject") {
        c.and0(crate::text::cat(DECISION, " = 'reject'"));
    } else if is_text(decision, "marked") {
        c.and0(crate::text::cat(DECISION, " <> 'none'"));
    }
}

/// A number of stars brought into its range, from 0 to 5.
pub open spec fn stars_in_range(n: i64) -> i64 {
    if n < 0 {
        0
    } else if n > 5 {
        5
    } else {
        n
    }
}

pub fn clamp_stars(n: i64) -> (r: i64)
    ensures
        r == stars_in_range(n),
{
    if n < 0 {
        0
    } else if n > 5 {
        5
    } else {
        n
    }
}

pub open spec fn by_stars(c: CondModel, stars: Option<i64>) -> CondModel {
    match stars {
        Some(n) => c.and(STARS@ + " = ?"@, seq![ArgModel::Integer(stars_in_range(n))]),
        None => c,
    }
}

fn add_stars(c: &mut Cond, stars: Option<i64>)
    ensures
        final(c)@ == by_stars(old(c)@, stars),
{
    if let Some(n) = stars {
        c.and1(crate::text::cat(STARS, " = ?"), SqlArg::Integer(clamp_stars(n)));
    }
}

/// One of the five colours.
pub open spec fn is_color(s: Seq<char>) -> bool {
    ||| s == "red"@
    ||| s == "yellow"@
    ||| s == "green"@
    ||| s == "blue"@
    ||| s == "purple"@
}

/// A colour mark in small letters and without white space around it; what is no
/// colour counts as none.
pub open spec fn color_of(s: Option<Seq<char>>) -> Option<Seq<char>> {
    match s {
        Some(t) => if is_color(ascii_lower(trimmed(t))) {
            Some(ascii_lower(trimmed(t)))
        } else {
            None
        },
        None => None,
    }
}

pub fn normalize_color(s: Option<&str>) -> (r: Option<String>)
    ensures
        opt_view(r) == color_of(
            match s {
                Some(t) => Some(t@),
                None => None,
            },
        ),
{
    match s {
        Some(t) => {
            let c = trim(t);
            let c = to_ascii_lower(c.as_str());
            if same(c.as_str(), "red") || same(c.as_str(), "yellow") || same(c.as_str(), "green")
                || same(c.as_str(), "blue") || same(c.as_str(), "purple") {
                Some(c)
            } else {
                None
            }
        },
        None => None,
    }
}

pub open spec fn by_color(c: CondModel, color: Option<Seq<char>>) -> CondModel {
    match color_of(color) {
        Some(v) => c.and(COLOR@ + " = ?"@, seq![ArgModel::Text(v)]),
        None => c,
    }
}

fn add_color(c: &mut Cond, color: &Option<String>)
    ensures
        final(c)@ == by_color(old(c)@, opt_view(*color)),
{
    let v = match color {
        Some(s) => normalize_color(Some(s.as_str())),
        None => None,
    };
    if let Some(v) = v {
        c.and1(crate::text::cat(COLOR, " = ?"), SqlArg::Text(v));
    }
}

// ---- ranges ----

/// An upper bound of a range of focal lengths: a whole number, or none.
#[derive(Debug, Clone, Copy, PartialEq, Eq, Structural)]
pub enum Upper {
    Below(i64),
    Open,
}

/// The range of focal lengths that a name stands for, in millimetres; the upper
/// bound does not belong to it.
pub open spec fn focal_bounds(key: Seq<char>) -> Option<(i64, Upper)> {
    if key == "wide"@ {
        Some((0, Upper::Below(24)))
    } else if key == "normal"@ {
        Some((24, Upper::Below(70)))
    } else if key == "tele"@ {
        Some((70, Upper::Below(200)))
    } else if key == "super"@ {
        Some((200, Upper::Open))
    } else {
        None
    }
}

pub fn focal_range(key: &str) -> (r: Option<(i64, Upper)>)
    ensures
        r == focal_bounds(key@),
{
    if same(key, "wide") {
        Some((0, Upper::Below(24)))
    } else if same(key, "normal") {
        Some((24, Upper::Below(70)))
    } else if same(key, "tele") {
        Some((70, Upper::Below(200)))
    } else if same(key, "super") {
        Some((200, Upper::Open))
    } else {
        None
    }
}

/// The range of sensitivities that a name stands for; the upper bound does not
/// belong to it.
pub open spec fn iso_bounds(key: Seq<char>) -> Option<(i64, i64)> {
    if key == "low"@ {
        Some((0, 400))
    } else if key == "mid"@ {
        Some((400, 1600))
    } else if key == "high"@ {
        Some((1600, 6400))
    } else if key == "veryHigh"@ {
        Some((6400, i64::MAX))
    } else {
        None
    }
}

pub fn iso_range(key: &str) -> (r: Option<(i64, i64)>)
    ensures
        r == iso_bounds(key@),
{
    if same(key, "low") {
        Some((0, 400))
    } else if same(key, "mid") {
        Some((400, 1600))
    } else if same(key, "high") {
        Some((1600, 6400))
    } else if same(key, "veryHigh") {
        Some((6400, i64::MAX))
    } else {
        None
    }
}

pub open spec fn upper_arg(u: Upper) -> ArgModel {
    match u {
        Upper::Below(n) => ArgModel::Real(n),
        Upper::Open => ArgModel::RealMax,
    }
}

pub open spec fn by_focal(c: CondModel, key: Option<Seq<char>>) -> CondModel {
    match key {
        Some(k) => match focal_bounds(k) {
            Some((lo, hi)) => c.and(
                "p.focal_len >= ? AND p.focal_len < ?"@,
                seq![ArgModel::Real(lo), upper_arg(hi)],
            ),
            None => c,
        },
        None => c,
    }
}

fn add_focal(c: &mut Cond, key: &Option<String>)
    ensures
        final(c)@ == by_focal(old(c)@, opt_view(*key)),
{
    if let Some(k) = key {
        if let Some((lo, hi)) = focal_range(k.as_str()) {
            let upper = match hi {
                Upper::Below(n) => SqlArg::Real(n),
                Upper::Open => SqlArg::RealMax,
            };
            c.and2(
                "p.focal_len >= ? AND p.focal_len < ?".to_string(),
                SqlArg::Real(lo),
                upper,
            );
        }
    }
}

pub open spec fn by_iso(c: CondModel, key: Option<Seq<char>>) -> CondModel {
    match key {
        Some(k) => match iso_bounds(k) {
            Some((lo, hi)) => c.and(
                "p.iso >= ? AND p.iso < ?"@,
                seq![ArgModel::Integer(lo), ArgModel::Integer(hi)],
            ),
            None => c,
        },
        None => c,
    }
}

fn add_iso(c: &mut Cond, key: &Option<String>)
    ensures
        final(c)@ == by_iso(old(c)@, opt_view(*key)),
{
    if let Some(k) = key {
        if let Some((lo, hi)) = iso_range(k.as_str()) {
            c.and2(
                "p.iso >= ? AND p.iso < ?".to_string(),
                SqlArg::Integer(lo),
                SqlArg::Integer(hi),
            );
        }
    }
}

// ---- picture quality ----

/// Photos that were not analysed yet have no flaw: they must not be listed as
/// blurred only because their turn has not come.
pub open spec fn by_quality(c: CondModel, quality: Option<Seq<char>>) -> CondModel {
    if quality == Some("blur"@) {
        c.and(
            "p.sharpness IS NOT NULL AND p.sharpness < "@ + BLUR_THRESHOLD@,
            Seq::empty(),
        )
    } else if quality == Some("over"@) {
        c.and(
            "p.overexposed IS NOT NULL AND p.overexposed >= "@ + OVEREXPOSED_THRESHOLD@,
            Seq::empty(),
        )
    } else if quality == Some("under"@) {
        c.and(
            "p.underexposed IS NOT NULL AND p.underexposed >= "@ + UNDEREXPOSED_THRESHOLD@,
            Seq::empty(),
        )
    } else if quality == Some("blink"@) {
        c.and(
            "p.eye_ratio IS NOT NULL AND p.eye_ratio < "@ + CLOSED_THRESHOLD@,
            Seq::empty(),
        )
    } else {
        c
    }
}

fn add_quality(c: &mut Cond, quality: &Option<String>)
    ensures
        final(c)@ == by_quality(old(c)@, opt_view(*quality)),
{
    if is_text(quality, "blur") {
        c.and0(
            crate::text::cat("p.sharpness IS NOT NULL AND p.sharpness < ", BLUR_THRESHOLD),
        );
    } else if is_text(quality, "over") {
        c.and0(
            crate::text::cat(
                "p.overexposed IS NOT NULL AND p.overexposed >= ",
                OVEREXPOSED_THRESHOLD,
            ),
        );
    } else if is_text(quality, "under") {
        c.and0(
            crate::text::cat(
                "p.underexposed IS NOT NULL AND p.underexposed >= ",
                UNDEREXPOSED_THRESHOLD,
            ),
        );
    } else if is_text(quality, "blink") {
        c.and0(
            crate::text::cat("p.eye_ratio IS NOT NULL AND p.eye_ratio < ", CLOSED_THRESHOLD),
        );
    }
}

// ---- all of it ----

/// The condition that a filter stands for, part by part. Every photo stands for
/// its pair, so only the files that represent a pair are looked at.
pub open spec fn conditions(f: FilterModel, sep: char) -> CondModel {
    let c = CondModel { parts: seq!["p.is_primary = 1"@], args: Seq::empty() };
    let c = by_ids(c, f.ids);
    let c = by_scope(c, f.roots, sep);
    let c = by_pair_state(c, f.pair_state);
    let c = by_value(c, "p.camera_serial"@, f.camera_serial);
    let c = by_value(c, day_column(), f.day);
    let c = by_search(c, f.search);
    let c = by_decision(c, f.decision);
    let c = by_stars(c, f.stars);
    let c = by_color(c, f.color);
    let c = by_value(c, "p.lens"@, f.lens);
    let c = by_focal(c, f.focal);
    let c = by_iso(c, f.iso);
    by_quality(c, f.quality)
}

pub open spec fn where_text(f: FilterModel, sep: char) -> Seq<char> {
    joined(conditions(f, sep).parts, " AND "@)
}

/// The condition of the query for a filter, and the values for its placeholders.
pub fn build_where(f: &PairFilter, sep: char) -> (r: (String, Vec<SqlArg>))
    ensures
        r.0@ == where_text(f@, sep),
        args_view(r.1@) == conditions(f@, sep).args,
{
    let mut c = Cond::new();
    c.and0("p.is_primary = 1".to_string());
    proof {
        assert(c@.parts =~= seq!["p.is_primary = 1"@]);
        assert(c@.args =~= Seq::<ArgModel>::empty());
    }
    add_ids(&mut c, &f.ids);
    add_scope(&mut c, &f.roots, sep);
    add_pair_state(&mut c, &f.pair_state);
    add_value(&mut c, "p.camera_serial", &f.camera_serial);
    let day = crate::text::cat3("(", DAY_KEY, ")");
    add_value(&mut c, day.as_str(), &f.day);
    add_search(&mut c, &f.search);
    add_decision(&mut c, &f.decision);
    add_stars(&mut c, f.stars);
    add_color(&mut c, &f.color);
    add_value(&mut c, "p.lens", &f.lens);
    add_focal(&mut c, &f.focal);
    add_iso(&mut c, &f.iso);
    add_quality(&mut c, &f.quality);
    (join(&c.parts, " AND "), c.args)
}

// ---------------------------------------------------------------------------
// What the conditions promise
// ---------------------------------------------------------------------------

/// A sensitivity belongs to the range with this name.
pub open spec fn iso_in(key: Seq<char>, v: i64) -> bool {
    match iso_bounds(key) {
        Some((lo, hi)) => lo <= v < hi,
        None => false,
    }
}

/// A focal length of `n / d` millimetres belongs to the range with this name.
pub open spec fn focal_in(key: Seq<char>, n: int, d: int) -> bool {
    match focal_bounds(key) {
        Some((lo, Upper::Below(hi))) => lo * d <= n < hi * d,
        Some((lo, Upper::Open)) => lo * d <= n,
        None => false,
    }
}

pub proof fn lemma_range_names_differ()
    ensures
        "low"@ != "mid"@ && "low"@ != "high"@ && "low"@ != "veryHigh"@,
        "mid"@ != "high"@ && "mid"@ != "veryHigh"@ && "high"@ != "veryHigh"@,
        "wide"@ != "normal"@ && "wide"@ != "tele"@ && "wide"@ != "super"@,
        "normal"@ != "tele"@ && "normal"@ != "super"@ && "tele"@ != "super"@,
{
    reveal_strlit("low");
    reveal_strlit("mid");
    reveal_strlit("high");
    reveal_strlit("veryHigh");
    reveal_strlit("wide");
    reveal_strlit("normal");
    reveal_strlit("tele");
    reveal_strlit("super");
    assert("low"@[0] == 'l' && "mid"@[0] == 'm' && "high"@[0] == 'h' && "veryHigh"@[0] == 'v');
    assert("wide"@[0] == 'w' && "normal"@[0] == 'n' && "tele"@[0] == 't' && "super"@[0] == 's');
}

/// The ranges of sensitivities neither overlap nor leave a gap: every one below
/// the largest number belongs to exactly one of them.
pub proof fn law_iso_ranges_cover_once(v: i64)
    requires
        0 <= v < i64::MAX,
    ensures
        iso_in("low"@, v) || iso_in("mid"@, v) || iso_in("high"@, v) || iso_in("veryHigh"@, v),
        !(iso_in("low"@, v) && iso_in("mid"@, v)),
        !(iso_in("low"@, v) && iso_in("high"@, v)),
        !(iso_in("low"@, v) && iso_in("veryHigh"@, v)),
        !(iso_in("mid"@, v) && iso_in("high"@, v)),
        !(iso_in("mid"@, v) && iso_in("veryHigh"@, v)),
        !(iso_in("high"@, v) && iso_in("veryHigh"@, v)),
{
    lemma_range_names_differ();
}

/// The ranges of focal lengths neither overlap nor leave a gap.
pub proof fn law_focal_ranges_cover_once(n: int, d: int)
    requires
        0 <= n,
        0 < d,
    ensures
        focal_in("wide"@, n, d) || focal_in("normal"@, n, d) || focal_in("tele"@, n, d)
            || focal_in("super"@, n, d),
        !(focal_in("wide"@, n, d) && focal_in("normal"@, n, d)),
        !(focal_in("wide"@, n, d) && focal_in("tele"@, n, d)),
        !(focal_in("wide"@, n, d) && focal_in("super"@, n, d)),
        !(focal_in("normal"@, n, d) && focal_in("tele"@, n, d)),
        !(focal_in("normal"@, n, d) && focal_in("super"@, n, d)),
        !(focal_in("tele"@, n, d) && focal_in("super"@, n, d)),
{
    lemma_range_names_differ();
}

/// A word that a choice does not know asks for nothing: the condition is that of
/// the filter without it.
pub proof fn law_unknown_words_ask_for_nothing(f: FilterModel, word: Seq<char>, sep: char)
    ensures
        word != "none"@ && word != "keep"@ && word != "reject"@ && word != "marked"@
            ==> conditions(FilterModel { decision: Some(word), ..f }, sep) == conditions(
            FilterModel { decision: None, ..f },
            sep,
        ),
        word != "both"@ && word != "rawOnly"@ && word != "jpgOnly"@ && word != "orphan"@
            ==> conditions(FilterModel { pair_state: Some(word), ..f }, sep) == conditions(
            FilterModel { pair_state: None, ..f },
            sep,
        ),
        word != "blur"@ && word != "over"@ && word != "under"@ && word != "blink"@
            ==> conditions(FilterModel { quality: Some(word), ..f }, sep) == conditions(
            FilterModel { quality: None, ..f },
            sep,
        ),
        !is_color(ascii_lower(trimmed(word))) ==> conditions(
            FilterModel { color: Some(word), ..f },
            sep,
        ) == conditions(FilterModel { color: None, ..f }, sep),
        focal_bounds(word) is None ==> conditions(FilterModel { focal: Some(word), ..f }, sep)
            == conditions(FilterModel { focal: None, ..f }, sep),
        iso_bounds(word) is None ==> conditions(FilterModel { iso: Some(word), ..f }, sep)
            == conditions(FilterModel { iso: None, ..f }, sep),
{
}

/// What a filter asks of a value: nothing, that there is none, or that it is a given
/// one.
pub enum Asked {
    Nothing,
    Absent,
    Given,
}

pub open spec fn asked(value: Option<Seq<char>>) -> Asked {
    match value {
        Some(v) if v.len() > 0 => if v == NONE_KEY@ {
            Asked::Absent
        } else {
            Asked::Given
        },
        _ => Asked::Nothing,
    }
}

pub open spec fn searches(search: Option<Seq<char>>) -> bool {
    search matches Some(q) && trimmed(q).len() > 0
}

pub open spec fn number_of_ids(ids: Option<Seq<i64>>) -> nat {
    match ids {
        Some(v) => v.len(),
        None => 0,
    }
}

pub open spec fn names_focal(key: Option<Seq<char>>) -> bool {
    key matches Some(k) && focal_bounds(k) is Some
}

pub open spec fn names_iso(key: Option<Seq<char>>) -> bool {
    key matches Some(k) && iso_bounds(k) is Some
}

/// Two filters ask for the same kinds of things. The texts, numbers and directories
/// that they ask for may differ.
pub open spec fn ask_alike(f: FilterModel, g: FilterModel, sep: char) -> bool {
    &&& number_of_ids(f.ids) == number_of_ids(g.ids)
    &&& prefixes_in(f.roots, sep).len() == prefixes_in(g.roots, sep).len()
    &&& f.pair_state == g.pair_state
    &&& asked(f.camera_serial) == asked(g.camera_serial)
    &&& asked(f.day) == asked(g.day)
    &&& searches(f.search) == searches(g.search)
    &&& f.decision == g.decision
    &&& f.stars is Some == g.stars is Some
    &&& color_of(f.color) is Some == color_of(g.color) is Some
    &&& asked(f.lens) == asked(g.lens)
    &&& names_focal(f.focal) == names_focal(g.focal)
    &&& names_iso(f.iso) == names_iso(g.iso)
    &&& f.quality == g.quality
}

proof fn lemma_parts_of_ids(c: CondModel, d: CondModel, a: Option<Seq<i64>>, b: Option<Seq<i64>>)
    requires
        c.parts == d.parts,
        number_of_ids(a) == number_of_ids(b),
    ensures
        by_ids(c, a).parts == by_ids(d, b).parts,
{
}

proof fn lemma_parts_of_value(
    c: CondModel,
    d: CondModel,
    column: Seq<char>,
    a: Option<Seq<char>>,
    b: Option<Seq<char>>,
)
    requires
        c.parts == d.parts,
        asked(a) == asked(b),
    ensures
        by_value(c, column, a).parts == by_value(d, column, b).parts,
{
}

proof fn lemma_parts_of_ranges(
    c: CondModel,
    d: CondModel,
    a: Option<Seq<char>>,
    b: Option<Seq<char>>,
)
    requires
        c.parts == d.parts,
    ensures
        names_focal(a) == names_focal(b) ==> by_focal(c, a).parts == by_focal(d, b).parts,
        names_iso(a) == names_iso(b) ==> by_iso(c, a).parts == by_iso(d, b).parts,
{
}

/// What the user types never becomes part of a query: the text of the condition is the
/// same for all filters that ask for the same kinds of things, whatever search text,
/// camera, day, lens, colour, stars, photos and directories they name.
pub proof fn law_user_text_stays_out_of_the_query(f: FilterModel, g: FilterModel, sep: char)
    requires
        ask_alike(f, g, sep),
    ensures
        where_text(f, sep) == where_text(g, sep),
{
    let c0 = CondModel { parts: seq!["p.is_primary = 1"@], args: Seq::<ArgModel>::empty() };
    let f1 = by_ids(c0, f.ids);
    let g1 = by_ids(c0, g.ids);
    lemma_parts_of_ids(c0, c0, f.ids, g.ids);
    let f2 = by_scope(f1, f.roots, sep);
    let g2 = by_scope(g1, g.roots, sep);
    assert(f2.parts == g2.parts);
    let f3 = by_pair_state(f2, f.pair_state);
    let g3 = by_pair_state(g2, g.pair_state);
    assert(f3.parts == g3.parts);
    let f4 = by_value(f3, "p.camera_serial"@, f.camera_serial);
    let g4 = by_value(g3, "p.camera_serial"@, g.camera_serial);
    lemma_parts_of_value(f3, g3, "p.camera_serial"@, f.camera_serial, g.camera_serial);
    let f5 = by_value(f4, day_column(), f.day);
    let g5 = by_value(g4, day_column(), g.day);
    lemma_parts_of_value(f4, g4, day_column(), f.day, g.day);
    let f6 = by_search(f5, f.search);
    let g6 = by_search(g5, g.search);
    assert(f6.parts == g6.parts);
    let f7 = by_decision(f6, f.decision);
    let g7 = by_decision(g6, g.decision);
    assert(f7.parts == g7.parts);
    let f8 = by_stars(f7, f.stars);
    let g8 = by_stars(g7, g.stars);
    assert(f8.parts == g8.parts);
    let f9 = by_color(f8, f.color);
    let g9 = by_color(g8, g.color);
    assert(f9.parts == g9.parts);
    let f10 = by_value(f9, "p.lens"@, f.lens);
    let g10 = by_value(g9, "p.lens"@, g.lens);
    lemma_parts_of_value(f9, g9, "p.lens"@, f.lens, g.lens);
    let f11 = by_focal(f10, f.focal);
    let g11 = by_focal(g10, g.focal);
    lemma_parts_of_ranges(f10, g10, f.focal, g.focal);
    let f12 = by_iso(f11, f.iso);
    let g12 = by_iso(g11, g.iso);
    lemma_parts_of_ranges(f11, g11, f.iso, g.iso);
    assert(by_quality(f12, f.quality).parts == by_quality(g12, g.quality).parts);
    lemma_conditions_in_steps(f, sep);
    lemma_conditions_in_steps(g, sep);
}

proof fn lemma_conditions_in_steps(f: FilterModel, sep: char)
    ensures
        conditions(f, sep) == by_quality(
            by_iso(
                by_focal(
                    by_value(
                        by_color(
                            by_stars(
                                by_decision(
                                    by_search(
                                        by_value(
                                            by_value(
                                                by_pair_state(
                                                    by_scope(
                                                        by_ids(
                                                            CondModel {
                                                                parts: seq!["p.is_primary = 1"@],
                                                                args: Seq::empty(),
                                                            },
                                                            f.ids,
                                                        ),
                                                        f.roots,
                                                        sep,
                                                    ),
                                                    f.pair_state,
                                                ),
                                                "p.camera_serial"@,
                                                f.camera_serial,
                                            ),
                                            day_column(),
                                            f.day,
                                        ),
                                        f.search,
                                    ),
                                    f.decision,
                                ),
                                f.stars,
                            ),
                            f.color,
                        ),
                        "p.lens"@,
                        f.lens,
                    ),
                    f.focal,
                ),
                f.iso,
            ),
            f.quality,
        ),
{
}

// ---------------------------------------------------------------------------
// Queries
// ---------------------------------------------------------------------------

/// The order that a name stands for; the newest photos come first unless another
/// order is asked for.
pub open spec fn order_text(sort: Seq<char>) -> Seq<char> {
    if sort == "takenAsc"@ {
        "ORDER BY COALESCE(p.taken_at_corrected, p.mtime) ASC, p.path"@
    } else if sort == "nameAsc"@ {
        "ORDER BY p.path ASC"@
    } else if sort == "nameDesc"@ {
        "ORDER BY p.path DESC"@
    } else if sort == "sizeDesc"@ {
        "ORDER BY p.file_size DESC, p.path"@
    } else if sort == "starsDesc"@ {
        "ORDER BY COALESCE(d.stars, 0) DESC, p.path"@
    } else if sort == "sharpAsc"@ {
        "ORDER BY (p.sharpness IS NULL), p.sharpness ASC, p.path"@
    } else if sort == "sharpDesc"@ {
        "ORDER BY (p.sharpness IS NULL), p.sharpness DESC, p.path"@
    } else {
        "ORDER BY COALESCE(p.taken_at_corrected, p.mtime) DESC, p.path"@
    }
}

pub open spec fn sort_key(sort: Option<Seq<char>>) -> Seq<char> {
    match sort {
        Some(s) => s,
        None => "takenDesc"@,
    }
}

pub fn order_by(sort: Option<&str>) -> (r: &'static str)
    ensures
        r@ == order_text(
            sort_key(
                match sort {
                    Some(s) => Some(s@),
                    None => None,
                },
            ),
        ),
{
    let key = match sort {
        Some(s) => s,
        None => "takenDesc",
    };
    if same(key, "takenAsc") {
        "ORDER BY COALESCE(p.taken_at_corrected, p.mtime) ASC, p.path"
    } else if same(key, "nameAsc") {
        "ORDER BY p.path ASC"
    } else if same(key, "nameDesc") {
        "ORDER BY p.path DESC"
    } else if same(key, "sizeDesc") {
        "ORDER BY p.file_size DESC, p.path"
    } else if same(key, "starsDesc") {
        "ORDER BY COALESCE(d.stars, 0) DESC, p.path"
    } else if same(key, "sharpAsc") {
        "ORDER BY (p.sharpness IS NULL), p.sharpness ASC, p.path"
    } else if same(key, "sharpDesc") {
        "ORDER BY (p.sharpness IS NULL), p.sharpness DESC, p.path"
    } else {
        "ORDER BY COALESCE(p.taken_at_corrected, p.mtime) DESC, p.path"
    }
}

/// A query and the values for its placeholders.
#[derive(Debug, Clone)]
pub struct Query {
    pub sql: String,
    pub args: Vec<SqlArg>,
}

/// The number of photos that meet a condition.
pub open spec fn count_text(w: Seq<char>) -> Seq<char> {
    "SELECT COUNT(*) "@ + FROM_PHOTOS@ + " WHERE "@ + w
}

/// The query for the number of photos that a filter lets through.
pub fn count_query(f: &PairFilter, sep: char) -> (r: Query)
    ensures
        r.sql@ == count_text(where_text(f@, sep)),
        args_view(r.args@) == conditions(f@, sep).args,
{
    let (w, args) = build_where(f, sep);
    let mut sql = "SELECT COUNT(*) ".to_string();
    sql.push_str(FROM_PHOTOS);
    sql.push_str(" WHERE ");
    sql.push_str(w.as_str());
    Query { sql, args }
}

pub const CARD_HEAD: &'static str = "SELECT p.id, p.pair_key, p.path, p.file_kind, (SELECT MAX(CASE WHEN q.file_kind = 'raw' THEN 1 ELSE 0 END) FROM photos q WHERE q.pair_key = p.pair_key), (SELECT MAX(CASE WHEN q.file_kind = 'jpeg' THEN 1 ELSE 0 END) FROM photos q WHERE q.pair_key = p.pair_key), ";

pub const CARD_MID: &'static str = ", p.camera_model, p.camera_serial, p.lens, p.focal_len, p.aperture, p.shutter, p.iso, p.file_size, p.decode_path, ";

pub const CARD_TAIL: &'static str = ", p.sharpness, p.overexposed, p.underexposed, p.faces, p.eye_ratio ";

/// The cards of the photos that meet a condition, in an order, one page of them.
pub open spec fn page_text(w: Seq<char>, order: Seq<char>) -> Seq<char> {
    CARD_HEAD@ + TIME_TEXT@ + ", "@ + DAY_KEY@ + CARD_MID@ + DECISION@ + ", "@ + STARS@ + ", "@
        + COLOR@ + CARD_TAIL@ + FROM_PHOTOS@ + " WHERE "@ + w + " "@ + order
        + " LIMIT ? OFFSET ?"@
}

/// The query for one page of the photos that a filter lets through.
pub fn page_query(f: &PairFilter, limit: i64, offset: i64, sep: char) -> (r: Query)
    ensures
        r.sql@ == page_text(where_text(f@, sep), order_text(sort_key(f@.sort))),
        args_view(r.args@) == conditions(f@, sep).args + seq![
            ArgModel::Integer(limit),
            ArgModel::Integer(offset),
        ],
{
    let (w, mut args) = build_where(f, sep);
    let order = match &f.sort {
        Some(s) => order_by(Some(s.as_str())),
        None => order_by(None),
    };
    let mut sql = CARD_HEAD.to_string();
    sql.push_str(TIME_TEXT);
    sql.push_str(", ");
    sql.push_str(DAY_KEY);
    sql.push_str(CARD_MID);
    sql.push_str(DECISION);
    sql.push_str(", ");
    sql.push_str(STARS);
    sql.push_str(", ");
    sql.push_str(COLOR);
    sql.push_str(CARD_TAIL);
    sql.push_str(FROM_PHOTOS);
    sql.push_str(" WHERE ");
    sql.push_str(w.as_str());
    sql.push_str(" ");
    sql.push_str(order);
    sql.push_str(" LIMIT ? OFFSET ?");
    let ghost before = args_view(args@);
    args.push(SqlArg::Integer(limit));
    args.push(SqlArg::Integer(offset));
    assert(args_view(args@) =~= before + seq![
        ArgModel::Integer(limit),
        ArgModel::Integer(offset),
    ]);
    Query { sql, args }
}

/// The numbers of the photos that meet a condition, in an order.
pub open spec fn ids_text(w: Seq<char>, order: Seq<char>) -> Seq<char> {
    "SELECT p.id "@ + FROM_PHOTOS@ + " WHERE "@ + w + " "@ + order
}

/// The query for the numbers of all photos that a filter lets through, in the
/// order in which they are shown.
pub fn ids_query(f: &PairFilter, sep: char) -> (r: Query)
    ensures
        r.sql@ == ids_text(where_text(f@, sep), order_text(sort_key(f@.sort))),
        args_view(r.args@) == conditions(f@, sep).args,
{
    let (w, args) = build_where(f, sep);
    let order = match &f.sort {
        Some(s) => order_by(Some(s.as_str())),
        None => order_by(None),
    };
    let mut sql = "SELECT p.id ".to_string();
    sql.push_str(FROM_PHOTOS);
    sql.push_str(" WHERE ");
    sql.push_str(w.as_str());
    sql.push_str(" ");
    sql.push_str(order);
    Query { sql, args }
}

/// Which files a pair has, from whether it has a RAW and a JPEG file.
pub open spec fn state_text(has_raw: Option<i64>, has_jpg: Option<i64>) -> Seq<char> {
    let raw = match has_raw {
        Some(n) => n,
        None => 0,
    };
    let jpg = match has_jpg {
        Some(n) => n,
        None => 0,
    };
    if raw == 1 && jpg == 1 {
        "both"@
    } else if raw == 1 && jpg == 0 {
        "rawOnly"@
    } else {
        "jpgOnly"@
    }
}

pub fn pair_state_of(has_raw: Option<i64>, has_jpg: Option<i64>) -> (r: &'static str)
    ensures
        r@ == state_text(has_raw, has_jpg),
{
    let raw: i64 = match has_raw {
        Some(n) => n,
        None => 0,
    };
    let jpg: i64 = match has_jpg {
        Some(n) => n,
        None => 0,
    };
    if raw == 1 && jpg == 1 {
        "both"
    } else if raw == 1 && jpg == 0 {
        "rawOnly"
    } else {
        "jpgOnly"
    }
}

} // verus!
