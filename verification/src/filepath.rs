//! Paths as text: components separated by `/`.
//!
//! Repeated separators, a trailing separator and `.` components (but for one at
//! the very start) do not count, as is usual for paths.
use vstd::prelude::*;

use crate::text::{
    chars_of,
    lemma_first_at,
    lemma_split_joined,
    lemma_split_single,
    same,
    split,
    split_on,
    text_of,
    views,
};

verus! {

/// `p` without what does not count at its end: separators (but for the root
/// itself) and `.` components.
pub open spec fn trim_tail(p: Seq<char>) -> Seq<char>
    decreases p.len(),
{
    if p.len() > 1 && p.last() == '/' {
        trim_tail(p.drop_last())
    } else if p.len() > 1 && p.last() == '.' && p[p.len() - 2] == '/' {
        trim_tail(p.drop_last())
    } else {
        p
    }
}

/// Where the last component of `p` starts: behind its last separator.
pub open spec fn last_start(p: Seq<char>) -> int
    decreases p.len(),
{
    if p.len() == 0 {
        0
    } else if p.last() == '/' {
        p.len() as int
    } else {
        last_start(p.drop_last())
    }
}

/// The last component of `p`: its characters behind the last separator.
pub open spec fn last_part(p: Seq<char>) -> Seq<char> {
    p.skip(last_start(p))
}

/// The name of the file or directory at `p`; none where the path ends in `..`,
/// or has no component that names something.
pub open spec fn name_of(p: Seq<char>) -> Option<Seq<char>> {
    let s = last_part(trim_tail(p));
    if s.len() == 0 || s == seq!['.'] || s == seq!['.', '.'] {
        None
    } else {
        Some(s)
    }
}

/// The path of the directory that holds `p`; none for the root and for the empty
/// path.
pub open spec fn parent_of(p: Seq<char>) -> Option<Seq<char>> {
    let t = trim_tail(p);
    if last_part(t).len() == 0 {
        None
    } else {
        Some(trim_tail(t.take(last_start(t))))
    }
}

/// Where the last dot of `s` is; `-1` where it has none.
pub open spec fn last_dot(s: Seq<char>) -> int
    decreases s.len(),
{
    if s.len() == 0 {
        -1
    } else if s.last() == '.' {
        s.len() - 1
    } else {
        last_dot(s.drop_last())
    }
}

/// The name without its extension. A dot at the start belongs to the name.
pub open spec fn stem_of_name(name: Seq<char>) -> Seq<char> {
    if last_dot(name) <= 0 {
        name
    } else {
        name.take(last_dot(name))
    }
}

/// What stands behind the last dot of the name, where that is an extension.
pub open spec fn ext_of_name(name: Seq<char>) -> Option<Seq<char>> {
    if last_dot(name) <= 0 {
        None
    } else {
        Some(name.skip(last_dot(name) + 1))
    }
}

/// The name of `p` without its extension.
pub open spec fn stem_of(p: Seq<char>) -> Option<Seq<char>> {
    match name_of(p) {
        Some(n) => Some(stem_of_name(n)),
        None => None,
    }
}

/// The extension of `p`.
pub open spec fn ext_of(p: Seq<char>) -> Option<Seq<char>> {
    match name_of(p) {
        Some(n) => ext_of_name(n),
        None => None,
    }
}

/// `last_start` is the position behind the last separator.
pub proof fn lemma_last_start(p: Seq<char>)
    ensures
        0 <= last_start(p) <= p.len(),
        last_start(p) > 0 ==> p[last_start(p) - 1] == '/',
        forall|j: int| last_start(p) <= j < p.len() ==> p[j] != '/',
    decreases p.len(),
{
    if p.len() > 0 && p.last() != '/' {
        lemma_last_start(p.drop_last());
        assert forall|j: int| last_start(p) <= j < p.len() implies p[j] != '/' by {
            if j < p.len() - 1 {
                assert(p[j] == p.drop_last()[j]);
            }
        }
    }
}

/// Where a position behind a separator has no separator at or after it, it is
/// where the last component starts.
pub proof fn lemma_last_start_is(p: Seq<char>, k: int)
    requires
        0 <= k <= p.len(),
        k > 0 ==> p[k - 1] == '/',
        forall|j: int| k <= j < p.len() ==> p[j] != '/',
    ensures
        last_start(p) == k,
    decreases p.len(),
{
    if p.len() > k {
        assert(p.last() != '/');
        lemma_last_start_is(p.drop_last(), k);
    }
}

/// A name that can stand as the last component of a path.
pub open spec fn is_plain_name(name: Seq<char>) -> bool {
    &&& name.len() > 0
    &&& !name.contains('/')
    &&& name != seq!['.']
    &&& name != seq!['.', '.']
}

/// The last component of `dir/name` is `name`, and its directory is `dir`, up to
/// what does not count at the end of `dir`.
pub proof fn lemma_join_splits(dir: Seq<char>, name: Seq<char>)
    requires
        is_plain_name(name),
    ensures
        name_of(dir + seq!['/'] + name) == Some(name),
        parent_of(dir + seq!['/'] + name) == Some(trim_tail(dir + seq!['/'])),
{
    let p = dir + seq!['/'] + name;
    let k = dir.len() as int + 1;
    assert forall|j: int| k <= j < p.len() implies p[j] != '/' by {
        assert(p[j] == name[j - k]);
    }
    assert(p[k - 1] == '/');
    assert(p.last() == name.last() && name.last() != '/') by {
        assert(name.contains(name.last()));
    }
    if p.last() == '.' && p[p.len() - 2] == '/' {
        if name.len() > 1 {
            assert(p[p.len() - 2] == name[name.len() - 2]);
            assert(name.contains(name[name.len() - 2]));
        }
        assert(name =~= seq!['.']);
    }
    assert(trim_tail(p) == p);
    lemma_last_start_is(p, k);
    assert(last_part(p) =~= name);
    assert(p.take(k) =~= dir + seq!['/']);
}

pub proof fn lemma_last_dot(s: Seq<char>)
    ensures
        -1 <= last_dot(s) < s.len(),
        last_dot(s) >= 0 ==> s[last_dot(s)] == '.',
        forall|j: int| last_dot(s) < j < s.len() ==> s[j] != '.',
    decreases s.len(),
{
    if s.len() > 0 && s.last() != '.' {
        lemma_last_dot(s.drop_last());
        assert forall|j: int| last_dot(s) < j < s.len() implies s[j] != '.' by {
            if j < s.len() - 1 {
                assert(s[j] == s.drop_last()[j]);
            }
        }
    }
}

/// The end of `v[..to]` once `trim_tail` has been applied to it.
fn tail_end(v: &Vec<char>, to: usize) -> (r: usize)
    requires
        to <= v@.len(),
    ensures
        r <= to,
        v@.take(r as int) == trim_tail(v@.take(to as int)),
{
    let mut e: usize = to;
    while e > 1 && (v[e - 1] == '/' || (v[e - 1] == '.' && v[e - 2] == '/'))
        invariant
            e <= to <= v@.len(),
            trim_tail(v@.take(e as int)) == trim_tail(v@.take(to as int)),
        decreases e,
    {
        proof {
            assert(v@.take(e as int).drop_last() =~= v@.take(e - 1));
        }
        e = e - 1;
    }
    e
}

/// Where the last component of `v[..to]` starts.
fn part_start(v: &Vec<char>, to: usize) -> (r: usize)
    requires
        to <= v@.len(),
    ensures
        r <= to,
        r == last_start(v@.take(to as int)),
{
    let mut s: usize = to;
    while s > 0 && v[s - 1] != '/'
        invariant
            s <= to <= v@.len(),
            last_start(v@.take(s as int)) == last_start(v@.take(to as int)),
        decreases s,
    {
        proof {
            assert(v@.take(s as int).drop_last() =~= v@.take(s - 1));
        }
        s = s - 1;
    }
    s
}

/// The name of the file or directory at `path`.
pub fn file_name(path: &str) -> (r: Option<String>)
    ensures
        crate::text::opt_view(r) == name_of(path@),
{
    let v = chars_of(path);
    proof {
        assert(v@.take(v@.len() as int) =~= v@);
    }
    let e: usize = tail_end(&v, v.len());
    let s: usize = part_start(&v, e);
    let ghost part = last_part(trim_tail(path@));
    proof {
        assert(part =~= v@.subrange(s as int, e as int));
    }
    if s == e {
        return None;
    }
    if e - s == 1 && v[s] == '.' {
        assert(part =~= seq!['.']);
        return None;
    }
    if e - s == 2 && v[s] == '.' && v[s + 1] == '.' {
        assert(part =~= seq!['.', '.']);
        return None;
    }
    proof {
        if part.len() == 1 {
            assert(part[0] == v@[s as int]);
        }
        if part.len() == 2 {
            assert(part[0] == v@[s as int] && part[1] == v@[s + 1]);
        }
    }
    Some(text_of(&v, s, e))
}

/// The directory that holds `path`.
pub fn parent(path: &str) -> (r: Option<String>)
    ensures
        crate::text::opt_view(r) == parent_of(path@),
{
    let v = chars_of(path);
    proof {
        assert(v@.take(v@.len() as int) =~= v@);
    }
    let e: usize = tail_end(&v, v.len());
    let s: usize = part_start(&v, e);
    proof {
        assert(last_part(trim_tail(path@)) =~= v@.subrange(s as int, e as int));
        assert(v@.take(e as int).take(s as int) =~= v@.take(s as int));
    }
    if s == e {
        return None;
    }
    let t: usize = tail_end(&v, s);
    assert(v@.subrange(0, t as int) =~= v@.take(t as int));
    Some(text_of(&v, 0, t))
}

/// Where the last dot of `v` is, if it has one.
pub fn dot_at(v: &Vec<char>) -> (r: Option<usize>)
    ensures
        match r {
            Some(k) => k == last_dot(v@) && k < v@.len(),
            None => last_dot(v@) == -1,
        },
{
    let mut e: usize = v.len();
    proof {
        assert(v@.take(e as int) =~= v@);
    }
    while e > 0
        invariant
            e <= v@.len(),
            last_dot(v@) == last_dot(v@.take(e as int)),
        decreases e,
    {
        if v[e - 1] == '.' {
            return Some(e - 1);
        }
        proof {
            assert(v@.take(e as int).drop_last() =~= v@.take(e - 1));
        }
        e = e - 1;
    }
    None
}

/// The name of `path` without its extension.
pub fn file_stem(path: &str) -> (r: Option<String>)
    ensures
        crate::text::opt_view(r) == stem_of(path@),
{
    match file_name(path) {
        None => None,
        Some(name) => {
            let v = chars_of(name.as_str());
            match dot_at(&v) {
                Some(k) if k > 0 => {
                    assert(v@.subrange(0, k as int) =~= v@.take(k as int));
                    Some(text_of(&v, 0, k))
                },
                _ => Some(name),
            }
        },
    }
}

/// The extension of `path`.
pub fn extension(path: &str) -> (r: Option<String>)
    ensures
        crate::text::opt_view(r) == ext_of(path@),
{
    match file_name(path) {
        None => None,
        Some(name) => {
            let v = chars_of(name.as_str());
            let n: usize = v.len();
            match dot_at(&v) {
                Some(k) if k > 0 => {
                    assert(v@.subrange(k + 1, v@.len() as int) =~= v@.skip(k + 1));
                    Some(text_of(&v, k + 1, n))
                },
                _ => None,
            }
        },
    }
}

// ---------------------------------------------------------------------------
// Whole components
// ---------------------------------------------------------------------------

/// The pieces that count as components: not the empty ones, and of the `.` ones
/// only one that the path starts with.
pub open spec fn counted(pieces: Seq<Seq<char>>, at_start: bool) -> Seq<Seq<char>>
    decreases pieces.len(),
{
    if pieces.len() == 0 {
        Seq::empty()
    } else if pieces[0].len() == 0 || (pieces[0] == seq!['.'] && !at_start) {
        counted(pieces.skip(1), false)
    } else {
        seq![pieces[0]] + counted(pieces.skip(1), false)
    }
}

/// The components of a path; the root is the component `/`.
pub open spec fn components(p: Seq<char>) -> Seq<Seq<char>> {
    let root = if p.len() > 0 && p[0] == '/' {
        seq![seq!['/']]
    } else {
        Seq::empty()
    };
    root + counted(split(p, '/'), true)
}

/// `path` lies in the directory `dir` or is that directory: the components of
/// `dir` are the first ones of `path`.
pub open spec fn is_under(path: Seq<char>, dir: Seq<char>) -> bool {
    components(dir).is_prefix_of(components(path))
}

fn components_of(p: &str) -> (r: Vec<String>)
    ensures
        views(r@) == components(p@),
{
    let pieces = split_on(p, '/');
    let v = chars_of(p);
    let mut out: Vec<String> = Vec::new();
    if v.len() > 0 && v[0] == '/' {
        let root = "/".to_string();
        proof {
            reveal_strlit("/");
            assert(root@ =~= seq!['/']);
        }
        out.push(root);
    }
    let ghost head = views(out@);
    let ghost all = views(pieces@);
    proof {
        assert(all.skip(0) =~= all);
        assert(views(out@) + counted(all, true) =~= head + counted(all, true));
        if v@.len() > 0 && v@[0] == '/' {
            assert(head =~= seq![seq!['/']]);
        } else {
            assert(head =~= Seq::<Seq<char>>::empty());
        }
    }
    for i in 0..pieces.len()
        invariant
            all == views(pieces@),
            views(out@) + counted(all.skip(i as int), i == 0) == head + counted(all, true),
    {
        let piece = pieces[i].clone();
        let c = chars_of(piece.as_str());
        let empty = c.len() == 0;
        let dot = c.len() == 1 && c[0] == '.';
        let ghost rest = all.skip(i as int);
        proof {
            assert(rest[0] == piece@);
            assert(rest.skip(1) =~= all.skip(i + 1));
            if dot {
                assert(piece@ =~= seq!['.']);
            }
            assert(dot == (piece@ == seq!['.']));
        }
        let ghost before = views(out@);
        let ghost tail = counted(all.skip(i + 1), false);
        if !(empty || (dot && i != 0)) {
            out.push(piece);
            proof {
                assert(views(out@) =~= before.push(piece@));
                assert(before + (seq![piece@] + tail) =~= before.push(piece@) + tail);
            }
        }
    }
    proof {
        assert(views(out@) + counted(all.skip(pieces@.len() as int), false) =~= views(out@));
        assert(counted(all.skip(pieces@.len() as int), pieces@.len() == 0) =~= Seq::<
            Seq<char>,
        >::empty());
        assert(views(out@) + Seq::<Seq<char>>::empty() =~= views(out@));
    }
    out
}

/// Whether `path` lies in the directory `dir`, by whole components.
pub fn path_under(path: &str, dir: &str) -> (r: bool)
    ensures
        r == is_under(path@, dir@),
{
    let p = components_of(path);
    let d = components_of(dir);
    let ghost ps = views(p@);
    let ghost ds = views(d@);
    if d.len() > p.len() {
        return false;
    }
    for i in 0..d.len()
        invariant
            ps == views(p@),
            ds == views(d@),
            ps == components(path@),
            ds == components(dir@),
            d@.len() <= p@.len(),
            forall|j: int| 0 <= j < i ==> ps[j] == ds[j],
    {
        if !same(p[i].as_str(), d[i].as_str()) {
            proof {
                assert(ps[i as int] != ds[i as int]);
                if ds.is_prefix_of(ps) {
                    assert(ps.subrange(0, ds.len() as int)[i as int] == ps[i as int]);
                }
            }
            return false;
        }
    }
    assert(ps.subrange(0, ds.len() as int) =~= ds);
    true
}

proof fn lemma_counted_joined(a: Seq<Seq<char>>, b: Seq<Seq<char>>, at_start: bool)
    requires
        a.len() > 0,
    ensures
        counted(a + b, at_start) == counted(a, at_start) + counted(b, false),
    decreases a.len(),
{
    assert((a + b).skip(1) =~= a.skip(1) + b);
    if a.len() > 1 {
        lemma_counted_joined(a.skip(1), b, false);
    } else {
        assert(a.skip(1) + b =~= b);
        assert(counted(a.skip(1), false) =~= Seq::<Seq<char>>::empty());
    }
    assert(counted(a + b, at_start) =~= counted(a, at_start) + counted(b, false));
}

/// The components of `dir/name` are those of `dir` and then `name`.
pub proof fn lemma_components_joined(dir: Seq<char>, rest: Seq<char>)
    requires
        dir.len() > 0,
    ensures
        components(dir + seq!['/'] + rest) == components(dir) + counted(split(rest, '/'), false),
{
    lemma_split_joined(dir, '/', rest);
    lemma_first_at(dir, '/');
    lemma_counted_joined(split(dir, '/'), split(rest, '/'), true);
    assert((dir + seq!['/'] + rest)[0] == dir[0]);
    assert(components(dir + seq!['/'] + rest) =~= components(dir) + counted(
        split(rest, '/'),
        false,
    ));
}

/// Everything below a directory lies in it.
pub proof fn law_what_is_below_is_under(dir: Seq<char>, rest: Seq<char>)
    requires
        dir.len() > 0,
    ensures
        is_under(dir + seq!['/'] + rest, dir),
{
    lemma_components_joined(dir, rest);
}

proof fn lemma_counted_single(a: Seq<char>)
    requires
        is_plain_name(a),
    ensures
        counted(seq![a], false) == seq![a],
{
    let rest = seq![a].skip(1);
    assert(counted(rest, false) =~= Seq::<Seq<char>>::empty());
    assert(counted(seq![a], false) =~= seq![a]);
}

/// Nothing below a directory lies in a sibling of it, not even in one whose name
/// is the start of its own: what is under `dir/b` is not under `dir/a`.
pub proof fn law_sibling_is_not_under(
    dir: Seq<char>,
    a: Seq<char>,
    b: Seq<char>,
    rest: Seq<char>,
)
    requires
        dir.len() > 0,
        is_plain_name(a),
        is_plain_name(b),
        a != b,
    ensures
        !is_under(dir + seq!['/'] + b + seq!['/'] + rest, dir + seq!['/'] + a),
{
    let n = components(dir).len();
    lemma_components_joined(dir, a);
    lemma_split_single(a, '/');
    lemma_counted_single(a);
    let p = dir + seq!['/'] + b;
    lemma_components_joined(dir, b);
    lemma_split_single(b, '/');
    lemma_counted_single(b);
    lemma_components_joined(p, rest);
    let x = components(dir + seq!['/'] + a);
    let y = components(p + seq!['/'] + rest);
    assert(x[n as int] == a);
    assert(y[n as int] == b);
    if x.is_prefix_of(y) {
        assert(y.subrange(0, x.len() as int)[n as int] == y[n as int]);
    }
}

// ---------------------------------------------------------------------------
// Putting paths together
// ---------------------------------------------------------------------------

/// The path of `name` in the directory `dir`; `name` is a relative path.
pub open spec fn path_in(dir: Seq<char>, name: Seq<char>) -> Seq<char> {
    if dir.len() == 0 || dir.last() == '/' {
        dir + name
    } else {
        dir.push('/') + name
    }
}

pub fn join_path(dir: &str, name: &str) -> (r: String)
    ensures
        r@ == path_in(dir@, name@),
{
    let v = chars_of(dir);
    let n: usize = v.len();
    let mut s = dir.to_string();
    if n > 0 && v[n - 1] != '/' {
        s.push('/');
    }
    s.push_str(name);
    s
}

} // verus!
