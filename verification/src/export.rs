//! Exporting photos: names for the copies, where a copy goes, and the list that is
//! written beside them.
//!
//! Originals are only ever read. An export copies, and never overwrites.
use vstd::prelude::*;

use crate::filepath::{
    dot_at,
    ext_of,
    extension,
    file_name,
    file_stem,
    last_dot,
    name_of,
    stem_of,
};
use crate::filter::{
    args_view,
    build_where,
    conditions,
    holders,
    order_by,
    order_text,
    placeholder_list,
    sort_key,
    where_text,
    PairFilter,
    Query,
    DECISION,
    FROM_PHOTOS,
    STARS,
    TIME_TEXT,
};
use crate::text::{
    ascii_lower,
    cat,
    cat3,
    chars_of,
    dec,
    dec_int,
    dec_padded,
    decimal,
    decimal_signed,
    ends_with,
    join,
    joined,
    lemma_text_le_total,
    lemma_text_le_transitive,
    lemma_views_push,
    lower,
    opt_view,
    padded,
    replace,
    replaced,
    same,
    text_le,
    text_of,
    trim,
    trimmed,
    views,
};

verus! {

// ---------------------------------------------------------------------------
// Which files
// ---------------------------------------------------------------------------

/// Which files of a shot are exported.
#[derive(Debug, Clone, Copy, PartialEq, Eq, Structural)]
pub enum FileScope {
    Both,
    Raw,
    Jpeg,
}

impl FileScope {
    pub open spec fn named(s: Seq<char>) -> FileScope {
        if s == "raw"@ {
            FileScope::Raw
        } else if s == "jpeg"@ {
            FileScope::Jpeg
        } else {
            FileScope::Both
        }
    }

    /// Reads a scope; any other word means both, since exporting too much is better
    /// than exporting nothing.
    pub fn parse(s: &str) -> (r: Self)
        ensures
            r == FileScope::named(s@),
    {
        if same(s, "raw") {
            FileScope::Raw
        } else if same(s, "jpeg") {
            FileScope::Jpeg
        } else {
            FileScope::Both
        }
    }

    pub open spec fn takes(self, kind: Seq<char>) -> bool {
        match self {
            FileScope::Both => true,
            FileScope::Raw => kind == "raw"@,
            FileScope::Jpeg => kind == "jpeg"@,
        }
    }

    /// Whether files of this kind are exported.
    pub fn keeps(self, kind: &str) -> (r: bool)
        ensures
            r == self.takes(kind@),
    {
        match self {
            FileScope::Both => true,
            FileScope::Raw => same(kind, "raw"),
            FileScope::Jpeg => same(kind, "jpeg"),
        }
    }
}

// ---------------------------------------------------------------------------
// Names
// ---------------------------------------------------------------------------

/// The template that keeps the name of the original.
pub const DEFAULT_NAME_TEMPLATE: &'static str = "{name}";

/// What the variables of a template stand for.
#[derive(Debug, Clone, Copy)]
pub struct NameCtx<'a> {
    /// The name of the original without its extension.
    pub stem: &'a str,
    pub ext: &'a str,
    /// YYYYMMDD
    pub date: &'a str,
    /// HHMMSS
    pub time: &'a str,
    /// The number of the shot in this export, from 1.
    pub seq: usize,
    pub stars: i64,
    pub camera: &'a str,
    pub pair: &'a str,
}

/// What a `NameCtx` holds.
pub struct CtxModel {
    pub stem: Seq<char>,
    pub ext: Seq<char>,
    pub date: Seq<char>,
    pub time: Seq<char>,
    pub seq: nat,
    pub stars: int,
    pub camera: Seq<char>,
    pub pair: Seq<char>,
}

impl<'a> View for NameCtx<'a> {
    type V = CtxModel;

    open spec fn view(&self) -> CtxModel {
        CtxModel {
            stem: self.stem@,
            ext: self.ext@,
            date: self.date@,
            time: self.time@,
            seq: self.seq as nat,
            stars: self.stars as int,
            camera: self.camera@,
            pair: self.pair@,
        }
    }
}

/// A text in small letters, by the rules of Unicode.
pub uninterp spec fn unicode_lower(s: Seq<char>) -> Seq<char>;

/// `str::to_lowercase`. The contract names the result, and says what it is for an
/// ASCII text.
pub assume_specification[ str::to_lowercase ](s: &str) -> (r: String)
    ensures
        r@ == unicode_lower(s@),
        vstd::utf8::is_ascii_chars(s@) ==> r@ == ascii_lower(s@),
;

/// The template with its variables filled in, one after the other.
pub open spec fn filled(template: Seq<char>, c: CtxModel) -> Seq<char> {
    let s = replaced(template, "{name}"@, c.stem);
    let s = replaced(s, "{ext}"@, c.ext);
    let s = replaced(s, "{date}"@, c.date);
    let s = replaced(s, "{time}"@, c.time);
    let s = replaced(s, "{seq}"@, dec_padded(c.seq, 4));
    let s = replaced(s, "{stars}"@, dec_int(c.stars));
    let s = replaced(s, "{camera}"@, c.camera);
    replaced(s, "{pair}"@, c.pair)
}

/// `s` ends with `t`.
pub open spec fn has_suffix(s: Seq<char>, t: Seq<char>) -> bool {
    t.len() <= s.len() && s.skip(s.len() - t.len()) == t
}

/// The name with the extension behind it, where it does not have it already in any
/// letter case; `low` and `low_ext` are name and extension in small letters.
pub open spec fn with_ext(
    s: Seq<char>,
    ext: Seq<char>,
    low: Seq<char>,
    low_ext: Seq<char>,
) -> Seq<char> {
    if has_suffix(low, "."@ + low_ext) {
        s
    } else {
        s.push('.') + ext
    }
}

/// A character that Windows does not take in a file name.
pub open spec fn is_bad(c: char) -> bool {
    c == '/' || c == '\\' || c == ':' || c == '*' || c == '?' || c == '"' || c == '<' || c == '>'
        || c == '|'
}

pub open spec fn clean(c: char) -> char {
    if is_bad(c) {
        '_'
    } else {
        c
    }
}

/// `s` with an underscore for every character that a file name cannot have.
pub open spec fn cleaned(s: Seq<char>) -> Seq<char> {
    s.map_values(|c: char| clean(c))
}

fn clean_name(s: &str) -> (r: String)
    ensures
        r@ == cleaned(s@),
{
    let mut out = String::new();
    for c in it: s.chars()
        invariant
            it.seq() == s@,
            out@ == cleaned(s@.take(it.index())),
    {
        let bad = c == '/' || c == '\\' || c == ':' || c == '*' || c == '?' || c == '"' || c == '<'
            || c == '>' || c == '|';
        if bad {
            out.push('_');
        } else {
            out.push(c);
        }
        assert(out@ =~= cleaned(s@.take(it.index() + 1)));
    }
    assert(s@.take(s@.len() as int) =~= s@);
    out
}

/// The name, or the original's name where nothing but an extension is left of it.
/// The original's name is cleaned too.
pub open spec fn named_or_original(name: Seq<char>, c: CtxModel) -> Seq<char> {
    if trimmed(name).len() == 0 || name == "."@ + cleaned(c.ext) {
        cleaned(c.stem) + "."@ + cleaned(c.ext)
    } else {
        name
    }
}

/// The name of a copy; `low` and `low_ext` are the filled template and the
/// extension in small letters.
pub open spec fn name_with(
    template: Seq<char>,
    c: CtxModel,
    low: Seq<char>,
    low_ext: Seq<char>,
) -> Seq<char> {
    named_or_original(cleaned(with_ext(filled(template, c), c.ext, low, low_ext)), c)
}

/// The name of a copy.
pub open spec fn rendered(template: Seq<char>, c: CtxModel) -> Seq<char> {
    name_with(template, c, unicode_lower(filled(template, c)), unicode_lower(c.ext))
}

fn fill(template: &str, c: &NameCtx) -> (r: String)
    ensures
        r@ == filled(template@, c@),
{
    proof {
        reveal_strlit("{name}");
        reveal_strlit("{ext}");
        reveal_strlit("{date}");
        reveal_strlit("{time}");
        reveal_strlit("{seq}");
        reveal_strlit("{stars}");
        reveal_strlit("{camera}");
        reveal_strlit("{pair}");
    }
    let s = replace(template, "{name}", c.stem);
    let s = replace(s.as_str(), "{ext}", c.ext);
    let s = replace(s.as_str(), "{date}", c.date);
    let s = replace(s.as_str(), "{time}", c.time);
    let seq = padded(c.seq as u64, 4);
    let s = replace(s.as_str(), "{seq}", seq.as_str());
    let stars = decimal_signed(c.stars);
    let s = replace(s.as_str(), "{stars}", stars.as_str());
    let s = replace(s.as_str(), "{camera}", c.camera);
    replace(s.as_str(), "{pair}", c.pair)
}

/// Finishes a filled template: adds the extension where it is missing, and makes
/// it a name that every system takes. `low` and `low_ext` are the text and the
/// extension in small letters.
pub fn finish_name(text: String, low: &str, low_ext: &str, c: &NameCtx) -> (r: String)
    ensures
        r@ == named_or_original(cleaned(with_ext(text@, c@.ext, low@, low_ext@)), c@),
{
    let mut name = text;
    let suffix = cat(".", low_ext);
    if !ends_with(low, suffix.as_str()) {
        name.push('.');
        name.push_str(c.ext);
    }
    let name = clean_name(name.as_str());
    let ext = clean_name(c.ext);
    let bare = cat(".", ext.as_str());
    let t = trim(name.as_str());
    let n: usize = chars_of(t.as_str()).len();
    if n == 0 || same(name.as_str(), bare.as_str()) {
        let stem = clean_name(c.stem);
        cat3(stem.as_str(), ".", ext.as_str())
    } else {
        name
    }
}

/// `s` ends with `t`, letter case aside.
pub open spec fn has_suffix_in_any_case(s: Seq<char>, t: Seq<char>) -> bool {
    has_suffix(ascii_lower(s), ascii_lower(t))
}

/// Renders a template with the variables `{name}`, `{ext}`, `{date}`, `{time}`,
/// `{seq}`, `{stars}`, `{camera}` and `{pair}` to the name of a copy.
pub fn render_name(template: &str, c: &NameCtx) -> (r: String)
    ensures
        r@ == rendered(template@, c@),
        vstd::utf8::is_ascii_chars(filled(template@, c@)) && vstd::utf8::is_ascii_chars(c@.ext)
            ==> has_suffix_in_any_case(r@, "."@ + cleaned(c@.ext)),
{
    let s = fill(template, c);
    let low = s.as_str().to_lowercase();
    let low_ext = c.ext.to_lowercase();
    proof {
        lemma_extension_stays(template@, c@, low@, low_ext@);
    }
    finish_name(s, low.as_str(), low_ext.as_str(), c)
}

proof fn lemma_cleaned_is_clean(s: Seq<char>)
    ensures
        cleaned(s).len() == s.len(),
        forall|i: int| 0 <= i < s.len() ==> !is_bad(#[trigger] cleaned(s)[i]),
{
    assert forall|i: int| 0 <= i < s.len() implies !is_bad(#[trigger] cleaned(s)[i]) by {
        assert(cleaned(s)[i] == clean(s[i]));
    }
}

/// Cleaning a name leaves the letters as they are.
proof fn lemma_clean_small_letters(s: Seq<char>)
    ensures
        ascii_lower(cleaned(s)) == cleaned(ascii_lower(s)),
{
    assert forall|i: int| 0 <= i < s.len() implies ascii_lower(cleaned(s))[i] == cleaned(
        ascii_lower(s),
    )[i] by {
        assert(lower(clean(s[i])) == clean(lower(s[i])));
    }
    assert(ascii_lower(cleaned(s)) =~= cleaned(ascii_lower(s)));
}

proof fn lemma_clean_suffix(s: Seq<char>, t: Seq<char>)
    requires
        has_suffix(s, t),
    ensures
        has_suffix(cleaned(s), cleaned(t)),
{
    let from = s.len() - t.len();
    assert forall|i: int| 0 <= i < t.len() implies cleaned(s).skip(from)[i] == cleaned(t)[i] by {
        assert(s.skip(from)[i] == t[i]);
    }
    assert(cleaned(s).skip(from) =~= cleaned(t));
}

proof fn lemma_extension_stays(template: Seq<char>, c: CtxModel, low: Seq<char>, low_ext: Seq<char>)
    ensures
        has_suffix(name_with(template, c, low, low_ext), "."@ + cleaned(c.ext)) || (has_suffix(
            low,
            "."@ + low_ext,
        ) && name_with(template, c, low, low_ext) == cleaned(filled(template, c))),
        low == ascii_lower(filled(template, c)) && low_ext == ascii_lower(c.ext)
            ==> has_suffix_in_any_case(
            name_with(template, c, low, low_ext),
            "."@ + cleaned(c.ext),
        ),
{
    reveal_strlit(".");
    let text = filled(template, c);
    let body = with_ext(text, c.ext, low, low_ext);
    let r = name_with(template, c, low, low_ext);
    let tail = "."@ + cleaned(c.ext);
    lemma_cleaned_is_clean(c.ext);
    lemma_cleaned_is_clean(body);
    assert(cleaned("."@ + c.ext) =~= tail);
    if r != cleaned(body) {
        assert(r.skip(c.stem.len() as int) =~= tail);
    } else if !has_suffix(low, "."@ + low_ext) {
        assert(body =~= text + ("."@ + c.ext));
        assert(body.skip(text.len() as int) =~= "."@ + c.ext);
        lemma_clean_suffix(body, "."@ + c.ext);
    } else if low == ascii_lower(text) && low_ext == ascii_lower(c.ext) {
        lemma_clean_suffix(low, "."@ + low_ext);
        lemma_clean_small_letters(text);
        lemma_clean_small_letters("."@ + c.ext);
        assert(ascii_lower("."@ + c.ext) =~= "."@ + low_ext);
        assert(has_suffix(ascii_lower(r), ascii_lower(tail)));
    }
    if has_suffix(r, tail) {
        let from = r.len() - tail.len();
        assert forall|i: int| 0 <= i < tail.len() implies ascii_lower(r).skip(from)[i]
            == ascii_lower(tail)[i] by {
            assert(r.skip(from)[i] == tail[i]);
        }
        assert(ascii_lower(r).skip(from) =~= ascii_lower(tail));
    }
}

/// A rendered name is never blank nor only an extension, it has no character that a
/// file name cannot have, and it ends with the extension: as it is, or the filled
/// template had it already in some letter case. This holds for every template and
/// every photo that has a name.
pub proof fn law_rendered_names_are_names(
    template: Seq<char>,
    c: CtxModel,
    low: Seq<char>,
    low_ext: Seq<char>,
)
    requires
        c.stem.len() > 0,
    ensures
        ({
            let r = name_with(template, c, low, low_ext);
            &&& r.len() > 0
            &&& r != "."@ + cleaned(c.ext)
            &&& forall|i: int| 0 <= i < r.len() ==> !is_bad(#[trigger] r[i])
            &&& has_suffix(r, "."@ + cleaned(c.ext)) || (has_suffix(low, "."@ + low_ext) && r
                == cleaned(filled(template, c)))
            &&& low == ascii_lower(filled(template, c)) && low_ext == ascii_lower(c.ext)
                ==> has_suffix_in_any_case(r, "."@ + cleaned(c.ext))
        }),
{
    reveal_strlit(".");
    let body = with_ext(filled(template, c), c.ext, low, low_ext);
    let name = cleaned(body);
    lemma_cleaned_is_clean(body);
    lemma_cleaned_is_clean(c.stem);
    lemma_cleaned_is_clean(c.ext);
    lemma_extension_stays(template, c, low, low_ext);
    if trimmed(name).len() == 0 || name == "."@ + cleaned(c.ext) {
        let own = cleaned(c.stem) + "."@ + cleaned(c.ext);
        assert(own.len() > ("."@ + cleaned(c.ext)).len());
        assert forall|i: int| 0 <= i < own.len() implies !is_bad(#[trigger] own[i]) by {
            if i < c.stem.len() {
                assert(own[i] == cleaned(c.stem)[i]);
            } else if i > c.stem.len() {
                assert(own[i] == cleaned(c.ext)[i - c.stem.len() - 1]);
            }
        }
    } else {
        if name.len() == 0 {
            assert(crate::text::trim_front(name) == name);
            assert(crate::text::trim_back(name) == name);
        }
    }
}

/// Name and extension of a path; empty where there is none.
pub open spec fn or_empty(s: Option<Seq<char>>) -> Seq<char> {
    match s {
        Some(t) => t,
        None => Seq::empty(),
    }
}

fn text_or_empty(s: Option<String>) -> (r: String)
    ensures
        r@ == or_empty(opt_view(s)),
{
    match s {
        Some(t) => t,
        None => {
            let e = String::new();
            assert(e@ =~= Seq::<char>::empty());
            e
        },
    }
}

pub fn split_ext(path: &str) -> (r: (String, String))
    ensures
        r.0@ == or_empty(stem_of(path@)),
        r.1@ == or_empty(ext_of(path@)),
{
    (text_or_empty(file_stem(path)), text_or_empty(extension(path)))
}

/// The decimal digits among some bytes.
pub open spec fn digits_in(b: Seq<u8>) -> Seq<char>
    decreases b.len(),
{
    if b.len() == 0 {
        Seq::empty()
    } else if 0x30 <= b.last() <= 0x39 {
        digits_in(b.drop_last()).push(b.last() as char)
    } else {
        digits_in(b.drop_last())
    }
}

fn digits_of(b: &[u8], from: usize, to: usize) -> (r: String)
    requires
        from <= to <= b@.len(),
    ensures
        r@ == digits_in(b@.subrange(from as int, to as int)),
{
    let mut s = String::new();
    assert(s@ =~= digits_in(b@.subrange(from as int, from as int)));
    for i in from..to
        invariant
            from <= to <= b@.len(),
            s@ == digits_in(b@.subrange(from as int, i as int)),
    {
        proof {
            assert(b@.subrange(from as int, i + 1).drop_last() =~= b@.subrange(
                from as int,
                i as int,
            ));
        }
        if 0x30 <= b[i] && b[i] <= 0x39 {
            s.push(b[i] as char);
        }
    }
    s
}

/// No character is cut apart in front of byte `i`: the byte there does not continue
/// one.
pub open spec fn is_char_start(b: Seq<u8>, i: int) -> bool {
    i >= b.len() || !(0x80 <= b[i] < 0xc0)
}

/// Date and time of day in the text `2026-09-16 10:20:37`, as digits; both empty
/// where the text is shorter. The positions are those of bytes; both are empty too
/// where the text cannot be cut apart there.
pub open spec fn date_and_time(text: Option<Seq<char>>) -> (Seq<char>, Seq<char>) {
    let b = vstd::utf8::encode_utf8(trimmed(or_empty(text)));
    if b.len() < 19 || !is_char_start(b, 10) || !is_char_start(b, 11) || !is_char_start(b, 19) {
        (Seq::empty(), Seq::empty())
    } else {
        (digits_in(b.subrange(0, 10)), digits_in(b.subrange(11, 19)))
    }
}

fn at_char_start(b: &[u8], i: usize) -> (r: bool)
    ensures
        r == is_char_start(b@, i as int),
{
    i >= b.len() || b[i] < 0x80 || b[i] >= 0xc0
}

pub fn split_datetime(text: Option<&str>) -> (r: (String, String))
    ensures
        (r.0@, r.1@) == date_and_time(
            match text {
                Some(s) => Some(s@),
                None => None,
            },
        ),
{
    let s = match text {
        Some(t) => trim(t),
        None => {
            let e = trim("");
            proof {
                reveal_strlit("");
                assert(""@ =~= Seq::<char>::empty());
            }
            e
        },
    };
    let b = s.as_str().as_bytes();
    if b.len() < 19 || !at_char_start(b, 10) || !at_char_start(b, 11) || !at_char_start(b, 19) {
        let date = String::new();
        let time = String::new();
        assert(date@ =~= Seq::<char>::empty());
        assert(time@ =~= Seq::<char>::empty());
        return (date, time);
    }
    (digits_of(b, 0, 10), digits_of(b, 11, 19))
}

// ---------------------------------------------------------------------------
// Where a copy goes
// ---------------------------------------------------------------------------

/// How many names are tried for a copy.
pub const MAX_CANDIDATES: usize = 1000;

/// The `n`-th name to try: the name itself, then the name with `-1`, `-2` and so on
/// in front of its extension.
pub open spec fn candidate(name: Seq<char>, n: nat) -> Seq<char> {
    if n == 0 {
        name
    } else if last_dot(name) > 0 {
        name.take(last_dot(name)) + "-"@ + dec(n) + "."@ + name.skip(last_dot(name) + 1)
    } else {
        name + "-"@ + dec(n)
    }
}

pub fn candidate_name(name: &str, n: usize) -> (r: String)
    ensures
        r@ == candidate(name@, n as nat),
{
    if n == 0 {
        return name.to_string();
    }
    let v = chars_of(name);
    let len: usize = v.len();
    let num = decimal(n as u64);
    match dot_at(&v) {
        Some(k) if k > 0 => {
            let stem = text_of(&v, 0, k);
            let ext = text_of(&v, k + 1, len);
            proof {
                assert(stem@ =~= v@.take(k as int));
                assert(ext@ =~= v@.skip(k + 1));
            }
            let mut s = cat3(stem.as_str(), "-", num.as_str());
            s.push_str(".");
            s.push_str(ext.as_str());
            s
        },
        _ => cat3(name, "-", num.as_str()),
    }
}

/// What was found under a name in the target directory.
#[derive(Debug, Clone, Copy, PartialEq, Eq, Structural)]
pub enum Found {
    /// There is no such file.
    Nothing,
    /// A file of this size.
    File(u64),
    /// Something whose size cannot be read.
    Unreadable,
}

/// What to do with a name.
#[derive(Debug, Clone, Copy, PartialEq, Eq, Structural)]
pub enum Plan {
    /// Copy to this name.
    Use,
    /// Copy nothing: the file is there already.
    Skip,
    /// Try the next name.
    Next,
    /// Copy nothing: no name is free. The file is not exported.
    Full,
}

/// What to do with the `n`-th name. A file of the same size under it is taken for
/// the copy of an earlier export.
pub open spec fn plan(n: int, found: Found, size: u64) -> Plan {
    match found {
        Found::Nothing => Plan::Use,
        Found::File(s) if s == size => Plan::Skip,
        _ => if n + 1 >= MAX_CANDIDATES {
            Plan::Full
        } else {
            Plan::Next
        },
    }
}

pub fn plan_target(n: usize, found: Found, size: u64) -> (r: Plan)
    requires
        n < MAX_CANDIDATES,
    ensures
        r == plan(n as int, found, size),
{
    match found {
        Found::Nothing => Plan::Use,
        Found::File(s) if s == size => Plan::Skip,
        _ => if n + 1 >= MAX_CANDIDATES {
            Plan::Full
        } else {
            Plan::Next
        },
    }
}

/// Where the copy of a file goes.
pub enum Target {
    /// To this name.
    To(Seq<char>),
    /// Nowhere: the file is there already.
    Present,
    /// Nowhere: no name is free.
    Full,
}

/// Where the copy of a file goes in a directory, if the names are tried from the
/// `n`-th on.
pub open spec fn target(
    dir: spec_fn(Seq<char>) -> Found,
    name: Seq<char>,
    size: u64,
    n: int,
) -> Target
    decreases MAX_CANDIDATES - n,
{
    if n < 0 || n >= MAX_CANDIDATES {
        Target::Full
    } else {
        match plan(n, dir(candidate(name, n as nat)), size) {
            Plan::Use => Target::To(candidate(name, n as nat)),
            Plan::Skip => Target::Present,
            Plan::Next => target(dir, name, size, n + 1),
            Plan::Full => Target::Full,
        }
    }
}

/// Under the `n`-th name is something else than the file.
pub open spec fn is_taken(
    dir: spec_fn(Seq<char>) -> Found,
    name: Seq<char>,
    size: u64,
    n: int,
) -> bool {
    dir(candidate(name, n as nat)) != Found::Nothing && dir(candidate(name, n as nat))
        != Found::File(size)
}

/// All names from `from` on and before `to` are taken.
pub open spec fn are_taken(
    dir: spec_fn(Seq<char>) -> Found,
    name: Seq<char>,
    size: u64,
    from: int,
    to: int,
) -> bool {
    forall|k: int| from <= k < to ==> #[trigger] is_taken(dir, name, size, k)
}

/// A copy goes to the first name under which nothing is, after names that are taken;
/// a file is left out as present only where a file of its size is under one of its
/// names, after names that are taken; and it has no place only where all names are
/// taken.
pub proof fn law_first_free_name_is_used(
    dir: spec_fn(Seq<char>) -> Found,
    name: Seq<char>,
    size: u64,
    n: int,
)
    requires
        0 <= n <= MAX_CANDIDATES,
    ensures
        match target(dir, name, size, n) {
            Target::To(t) => exists|k: int|
                n <= k < MAX_CANDIDATES && t == candidate(name, k as nat) && dir(t)
                    == Found::Nothing && #[trigger] are_taken(dir, name, size, n, k),
            Target::Present => exists|k: int|
                n <= k < MAX_CANDIDATES && dir(candidate(name, k as nat)) == Found::File(size)
                    && #[trigger] are_taken(dir, name, size, n, k),
            Target::Full => are_taken(dir, name, size, n, MAX_CANDIDATES as int),
        },
    decreases MAX_CANDIDATES - n,
{
    if n < MAX_CANDIDATES {
        let found = dir(candidate(name, n as nat));
        if plan(n, found, size) == Plan::Next {
            law_first_free_name_is_used(dir, name, size, n + 1);
            assert(is_taken(dir, name, size, n));
            assert forall|k: int| are_taken(dir, name, size, n + 1, k) implies #[trigger] are_taken(
                dir,
                name,
                size,
                n,
                k,
            ) by {
                assert forall|j: int| n <= j < k implies #[trigger] is_taken(dir, name, size, j) by {
                    assert(j == n || n + 1 <= j);
                }
            }
            match target(dir, name, size, n) {
                Target::To(t) => {
                    let k = choose|k: int|
                        n + 1 <= k < MAX_CANDIDATES && t == candidate(name, k as nat) && dir(t)
                            == Found::Nothing && #[trigger] are_taken(dir, name, size, n + 1, k);
                    assert(are_taken(dir, name, size, n, k));
                },
                Target::Present => {
                    let k = choose|k: int|
                        n + 1 <= k < MAX_CANDIDATES && dir(candidate(name, k as nat))
                            == Found::File(size) && #[trigger] are_taken(
                            dir,
                            name,
                            size,
                            n + 1,
                            k,
                        );
                    assert(are_taken(dir, name, size, n, k));
                },
                Target::Full => {
                    assert(are_taken(dir, name, size, n, MAX_CANDIDATES as int));
                },
            }
        } else {
            assert(are_taken(dir, name, size, n, n));
            assert(plan(n, found, size) == Plan::Full ==> is_taken(dir, name, size, n));
        }
    }
}

/// An export never overwrites: a copy goes only where nothing is.
pub proof fn law_copies_never_overwrite(
    dir: spec_fn(Seq<char>) -> Found,
    name: Seq<char>,
    size: u64,
    n: int,
)
    requires
        0 <= n,
    ensures
        target(dir, name, size, n) matches Target::To(t) ==> dir(t) == Found::Nothing,
    decreases MAX_CANDIDATES - n,
{
    if n < MAX_CANDIDATES {
        law_copies_never_overwrite(dir, name, size, n + 1);
    }
}

/// Whatever was in a directory is still there as it was; there may be more.
pub open spec fn keeps_all(
    before: spec_fn(Seq<char>) -> Found,
    after: spec_fn(Seq<char>) -> Found,
) -> bool {
    forall|x: Seq<char>| before(x) != Found::Nothing ==> #[trigger] after(x) == before(x)
}

/// What an export of one file makes of a directory: where the file is copied, it is
/// under its new name then, and whatever was there stays. Other files may appear.
pub open spec fn is_exported(
    before: spec_fn(Seq<char>) -> Found,
    after: spec_fn(Seq<char>) -> Found,
    name: Seq<char>,
    size: u64,
) -> bool {
    &&& keeps_all(before, after)
    &&& target(before, name, size, 0) matches Target::To(t) ==> after(t) == Found::File(size)
}

proof fn lemma_present_stays(
    before: spec_fn(Seq<char>) -> Found,
    after: spec_fn(Seq<char>) -> Found,
    name: Seq<char>,
    size: u64,
    n: int,
)
    requires
        0 <= n,
        keeps_all(before, after),
        target(before, name, size, n) is Present,
    ensures
        target(after, name, size, n) is Present,
    decreases MAX_CANDIDATES - n,
{
    if n < MAX_CANDIDATES {
        let c = candidate(name, n as nat);
        assert(before(c) != Found::Nothing);
        assert(after(c) == before(c));
        if plan(n, before(c), size) == Plan::Next {
            lemma_present_stays(before, after, name, size, n + 1);
        }
    }
}

proof fn lemma_copied_is_present(
    before: spec_fn(Seq<char>) -> Found,
    after: spec_fn(Seq<char>) -> Found,
    name: Seq<char>,
    size: u64,
    n: int,
)
    requires
        0 <= n,
        keeps_all(before, after),
        target(before, name, size, n) is To,
        after(target(before, name, size, n)->To_0) == Found::File(size),
    ensures
        target(after, name, size, n) is Present,
    decreases MAX_CANDIDATES - n,
{
    if n < MAX_CANDIDATES {
        let c = candidate(name, n as nat);
        if before(c) == Found::Nothing {
            assert(target(before, name, size, n) == Target::To(c));
        } else {
            assert(after(c) == before(c));
            lemma_copied_is_present(before, after, name, size, n + 1);
        }
    }
}

/// Once a file was exported, or was there already, it is there for every later
/// export, whatever else was added to the directory.
pub proof fn law_exported_files_are_present(
    before: spec_fn(Seq<char>) -> Found,
    after: spec_fn(Seq<char>) -> Found,
    name: Seq<char>,
    size: u64,
)
    requires
        is_exported(before, after, name, size),
        !(target(before, name, size, 0) is Full),
    ensures
        target(after, name, size, 0) is Present,
{
    if target(before, name, size, 0) is To {
        lemma_copied_is_present(before, after, name, size, 0);
    } else {
        lemma_present_stays(before, after, name, size, 0);
    }
}

/// The states of a directory in which files are exported one after the other:
/// `dirs[i]` is what the `i`-th file finds.
pub open spec fn is_export_of(
    dirs: Seq<spec_fn(Seq<char>) -> Found>,
    files: Seq<(Seq<char>, u64)>,
) -> bool {
    &&& dirs.len() == files.len() + 1
    &&& forall|i: int|
        0 <= i < files.len() ==> #[trigger] is_exported(
            dirs[i],
            dirs[i + 1],
            files[i].0,
            files[i].1,
        )
}

proof fn lemma_dirs_grow(
    dirs: Seq<spec_fn(Seq<char>) -> Found>,
    files: Seq<(Seq<char>, u64)>,
    i: int,
    j: int,
)
    requires
        is_export_of(dirs, files),
        0 <= i <= j < dirs.len(),
    ensures
        keeps_all(dirs[i], dirs[j]),
    decreases j - i,
{
    if i < j {
        lemma_dirs_grow(dirs, files, i + 1, j);
        assert(is_exported(dirs[i], dirs[i + 1], files[i].0, files[i].1));
        assert forall|x: Seq<char>| dirs[i](x) != Found::Nothing implies #[trigger] dirs[j](x)
            == dirs[i](x) by {
            assert(dirs[i + 1](x) == dirs[i](x));
        }
    }
}

/// Nothing but copies changes the directory.
pub open spec fn only_copies(
    dirs: Seq<spec_fn(Seq<char>) -> Found>,
    files: Seq<(Seq<char>, u64)>,
) -> bool {
    forall|i: int|
        0 <= i < files.len() && !(#[trigger] target(dirs[i], files[i].0, files[i].1, 0) is To)
            ==> dirs[i + 1] == dirs[i]
}

proof fn lemma_dirs_stay(
    dirs: Seq<spec_fn(Seq<char>) -> Found>,
    files: Seq<(Seq<char>, u64)>,
    j: int,
)
    requires
        is_export_of(dirs, files),
        only_copies(dirs, files),
        forall|i: int|
            0 <= i < files.len() ==> #[trigger] target(dirs[i], files[i].0, files[i].1, 0)
                is Present,
        0 <= j < dirs.len(),
    ensures
        dirs[j] == dirs[0],
    decreases j,
{
    if j > 0 {
        lemma_dirs_stay(dirs, files, j - 1);
        assert(target(dirs[j - 1], files[j - 1].0, files[j - 1].1, 0) is Present);
    }
}

/// The counts after some files.
pub open spec fn recorded(run: ExportRun, outcomes: Seq<Outcome>) -> ExportRun
    decreases outcomes.len(),
{
    if outcomes.len() == 0 {
        run
    } else {
        recorded(run, outcomes.drop_last()).after(outcomes.last())
    }
}

/// What can come of a file: a copy is tried only where it has a place to go, and a
/// file without one has failed.
pub open spec fn is_outcome(t: Target, o: Outcome) -> bool {
    match t {
        Target::To(_) => o is Copied || o is Failed,
        Target::Present => o is Skipped,
        Target::Full => o is Failed,
    }
}

proof fn lemma_all_skipped(total: usize, outcomes: Seq<Outcome>)
    requires
        outcomes.len() <= total,
        forall|i: int| 0 <= i < outcomes.len() ==> #[trigger] outcomes[i] == Outcome::Skipped,
    ensures
        recorded(
            ExportRun { total, done: 0, copied: 0, skipped: 0, failed: 0, bytes: 0 },
            outcomes,
        ) == (ExportRun {
            total,
            done: outcomes.len() as usize,
            copied: 0,
            skipped: outcomes.len() as usize,
            failed: 0,
            bytes: 0,
        }),
    decreases outcomes.len(),
{
    if outcomes.len() > 0 {
        lemma_all_skipped(total, outcomes.drop_last());
        assert(outcomes.last() == Outcome::Skipped);
    }
}

/// An export can be repeated: after an export in which every file found its place,
/// every file is there for a second export of the same files, so the second one
/// copies nothing, skips all of them, and leaves the directory as it is. Other files
/// may appear in it meanwhile.
pub proof fn law_exports_are_repeatable(
    first: Seq<spec_fn(Seq<char>) -> Found>,
    second: Seq<spec_fn(Seq<char>) -> Found>,
    files: Seq<(Seq<char>, u64)>,
    outcomes: Seq<Outcome>,
)
    requires
        files.len() <= usize::MAX,
        is_export_of(first, files),
        forall|i: int|
            0 <= i < files.len() ==> !(#[trigger] target(first[i], files[i].0, files[i].1, 0)
                is Full),
        keeps_all(first.last(), second[0]),
        is_export_of(second, files),
        outcomes.len() == files.len(),
        forall|i: int|
            0 <= i < files.len() ==> #[trigger] is_outcome(
                target(second[i], files[i].0, files[i].1, 0),
                outcomes[i],
            ),
    ensures
        forall|i: int|
            0 <= i < files.len() ==> #[trigger] target(second[i], files[i].0, files[i].1, 0)
                is Present,
        only_copies(second, files) ==> second.last() == second[0],
        recorded(
            ExportRun {
                total: files.len() as usize,
                done: 0,
                copied: 0,
                skipped: 0,
                failed: 0,
                bytes: 0,
            },
            outcomes,
        ) == (ExportRun {
            total: files.len() as usize,
            done: files.len() as usize,
            copied: 0,
            skipped: files.len() as usize,
            failed: 0,
            bytes: 0,
        }),
{
    assert forall|i: int| 0 <= i < files.len() implies #[trigger] target(
        second[i],
        files[i].0,
        files[i].1,
        0,
    ) is Present by {
        let (name, size) = files[i];
        assert(is_exported(first[i], first[i + 1], name, size));
        assert(!(target(first[i], name, size, 0) is Full));
        law_exported_files_are_present(first[i], first[i + 1], name, size);
        lemma_dirs_grow(first, files, i + 1, first.len() - 1);
        lemma_present_stays(first[i + 1], first.last(), name, size, 0);
        lemma_present_stays(first.last(), second[0], name, size, 0);
        lemma_dirs_grow(second, files, 0, i);
        lemma_present_stays(second[0], second[i], name, size, 0);
    }
    assert forall|i: int| 0 <= i < outcomes.len() implies #[trigger] outcomes[i]
        == Outcome::Skipped by {
        assert(is_outcome(target(second[i], files[i].0, files[i].1, 0), outcomes[i]));
    }
    lemma_all_skipped(files.len() as usize, outcomes);
    if only_copies(second, files) {
        lemma_dirs_stay(second, files, second.len() - 1);
    }
}

// ---------------------------------------------------------------------------
// The list
// ---------------------------------------------------------------------------

/// A character for which a field has to be quoted.
pub open spec fn is_special(c: char) -> bool {
    c == ',' || c == '"' || c == '\n' || c == '\r'
}

pub open spec fn needs_quotes(s: Seq<char>) -> bool {
    exists|i: int| 0 <= i < s.len() && is_special(#[trigger] s[i])
}

/// `s` with every quote doubled.
pub open spec fn quotes_doubled(s: Seq<char>) -> Seq<char>
    decreases s.len(),
{
    if s.len() == 0 {
        Seq::empty()
    } else if s[0] == '"' {
        seq!['"', '"'] + quotes_doubled(s.skip(1))
    } else {
        seq![s[0]] + quotes_doubled(s.skip(1))
    }
}

/// A field of a CSV row. One with a comma, a quote or a line break is put in quotes,
/// and its own quotes are doubled.
pub open spec fn field_text(s: Seq<char>) -> Seq<char> {
    if needs_quotes(s) {
        seq!['"'] + quotes_doubled(s) + seq!['"']
    } else {
        s
    }
}

pub fn csv_field(s: &str) -> (r: String)
    ensures
        r@ == field_text(s@),
{
    let v = chars_of(s);
    let n: usize = v.len();
    let mut special = false;
    for i in 0..n
        invariant
            n == v@.len(),
            special <==> exists|j: int| 0 <= j < i && is_special(#[trigger] v@[j]),
    {
        let c = v[i];
        if c == ',' || c == '"' || c == '\n' || c == '\r' {
            special = true;
            assert(is_special(v@[i as int]));
        }
    }
    if !special {
        return s.to_string();
    }
    let mut out = String::new();
    out.push('"');
    let ghost want = quotes_doubled(v@);
    proof {
        assert(v@.skip(0) =~= v@);
        assert(out@ + want =~= seq!['"'] + want);
    }
    for i in 0..n
        invariant
            n == v@.len(),
            want == quotes_doubled(v@),
            out@ + quotes_doubled(v@.skip(i as int)) == seq!['"'] + want,
    {
        let c = v[i];
        let ghost before = out@;
        let ghost tail = quotes_doubled(v@.skip(i + 1));
        proof {
            assert(v@.skip(i as int).skip(1) =~= v@.skip(i + 1));
        }
        if c == '"' {
            out.push('"');
            out.push('"');
            assert(before + (seq!['"', '"'] + tail) =~= out@ + tail);
        } else {
            out.push(c);
            assert(before + (seq![c] + tail) =~= out@ + tail);
        }
    }
    proof {
        assert(out@ + quotes_doubled(v@.skip(n as int)) =~= out@);
    }
    out.push('"');
    assert(out@ =~= seq!['"'] + want + seq!['"']);
    out
}

pub open spec fn fields_text(fields: Seq<Seq<char>>) -> Seq<Seq<char>> {
    fields.map_values(|f: Seq<char>| field_text(f))
}

/// A row without its line break.
pub open spec fn row_body(fields: Seq<Seq<char>>) -> Seq<char> {
    joined(fields_text(fields), ","@)
}

/// A row: the fields with commas between them, and a line break.
pub open spec fn row_text(fields: Seq<Seq<char>>) -> Seq<char> {
    row_body(fields).push('\n')
}

pub fn csv_row(fields: &Vec<String>) -> (r: String)
    ensures
        r@ == row_text(views(fields@)),
{
    let mut parts: Vec<String> = Vec::new();
    let ghost all = views(fields@);
    for i in 0..fields.len()
        invariant
            all == views(fields@),
            views(parts@) =~= fields_text(all.take(i as int)),
    {
        let part = csv_field(fields[i].as_str());
        proof {
            lemma_views_push(parts@, part);
            assert(all[i as int] == fields@[i as int]@);
            assert(fields_text(all.take(i + 1)) =~= fields_text(all.take(i as int)).push(part@));
        }
        parts.push(part);
    }
    assert(all.take(fields@.len() as int) =~= all);
    let mut line = join(&parts, ",");
    line.push('\n');
    line
}

// ---- reading a row back ----

/// The fields of a row, read character by character; `quoted` says whether the
/// reader is inside quotes, and `cur` is the field so far.
pub open spec fn read_fields(s: Seq<char>, quoted: bool, cur: Seq<char>) -> Seq<Seq<char>>
    decreases s.len(),
{
    if s.len() == 0 {
        seq![cur]
    } else if quoted {
        if s[0] != '"' {
            read_fields(s.skip(1), true, cur.push(s[0]))
        } else if s.len() > 1 && s[1] == '"' {
            read_fields(s.skip(2), true, cur.push('"'))
        } else {
            read_fields(s.skip(1), false, cur)
        }
    } else if s[0] == '"' {
        read_fields(s.skip(1), true, cur)
    } else if s[0] == ',' {
        seq![cur] + read_fields(s.skip(1), false, Seq::empty())
    } else {
        read_fields(s.skip(1), false, cur.push(s[0]))
    }
}

proof fn lemma_read_plain(f: Seq<char>, rest: Seq<char>, cur: Seq<char>)
    requires
        !needs_quotes(f),
    ensures
        read_fields(f + rest, false, cur) == read_fields(rest, false, cur + f),
    decreases f.len(),
{
    if f.len() == 0 {
        assert(f + rest =~= rest);
        assert(cur + f =~= cur);
    } else {
        assert(!is_special(f[0]));
        let s = f + rest;
        assert(s[0] == f[0]);
        assert(s.skip(1) =~= f.skip(1) + rest);
        assert forall|i: int| 0 <= i < f.skip(1).len() implies !is_special(
            #[trigger] f.skip(1)[i],
        ) by {
            assert(f.skip(1)[i] == f[i + 1]);
        }
        lemma_read_plain(f.skip(1), rest, cur.push(f[0]));
        assert(cur.push(f[0]) + f.skip(1) =~= cur + f);
    }
}

proof fn lemma_read_quoted(f: Seq<char>, rest: Seq<char>, cur: Seq<char>)
    requires
        rest.len() == 0 || rest[0] != '"',
    ensures
        read_fields(quotes_doubled(f) + seq!['"'] + rest, true, cur) == read_fields(
            rest,
            false,
            cur + f,
        ),
    decreases f.len(),
{
    let s = quotes_doubled(f) + seq!['"'] + rest;
    if f.len() == 0 {
        assert(s =~= seq!['"'] + rest);
        assert(s.skip(1) =~= rest);
        assert(cur + f =~= cur);
    } else {
        let t = quotes_doubled(f.skip(1)) + seq!['"'] + rest;
        if f[0] == '"' {
            assert(s =~= seq!['"', '"'] + t);
            assert(s.skip(2) =~= t);
        } else {
            assert(s =~= seq![f[0]] + t);
            assert(s.skip(1) =~= t);
        }
        lemma_read_quoted(f.skip(1), rest, cur.push(f[0]));
        assert(cur.push(f[0]) + f.skip(1) =~= cur + f);
    }
}

proof fn lemma_read_field(f: Seq<char>, rest: Seq<char>)
    requires
        rest.len() == 0 || rest[0] == ',',
    ensures
        read_fields(field_text(f) + rest, false, Seq::empty()) == read_fields(rest, false, f),
{
    let e = Seq::<char>::empty();
    assert(e + f =~= f);
    if needs_quotes(f) {
        let s = field_text(f) + rest;
        let t = quotes_doubled(f) + seq!['"'] + rest;
        assert(s =~= seq!['"'] + t);
        assert(s.skip(1) =~= t);
        lemma_read_quoted(f, rest, e);
    } else {
        lemma_read_plain(f, rest, e);
    }
}

proof fn lemma_read_row(fields: Seq<Seq<char>>, rest: Seq<char>)
    requires
        fields.len() > 0,
        rest.len() == 0 || rest[0] == ',',
    ensures
        read_fields(row_body(fields) + rest, false, Seq::empty()) == fields.drop_last()
            + read_fields(rest, false, fields.last()),
    decreases fields.len(),
{
    reveal_strlit(",");
    let e = Seq::<char>::empty();
    let texts = fields_text(fields);
    if fields.len() == 1 {
        assert(row_body(fields) == field_text(fields[0]));
        lemma_read_field(fields[0], rest);
        assert(fields.drop_last() + read_fields(rest, false, fields.last()) =~= read_fields(
            rest,
            false,
            fields.last(),
        ));
    } else {
        let front = fields.drop_last();
        let last = fields.last();
        let more = seq![','] + field_text(last) + rest;
        assert(texts.drop_last() =~= fields_text(front));
        assert(","@ =~= seq![',']);
        assert(row_body(fields) + rest =~= row_body(front) + more);
        lemma_read_row(front, more);
        assert(more.skip(1) =~= field_text(last) + rest);
        lemma_read_field(last, rest);
        assert(read_fields(more, false, front.last()) == seq![front.last()] + read_fields(
            rest,
            false,
            last,
        ));
        assert(front.drop_last() + (seq![front.last()] + read_fields(rest, false, last)) =~= front
            + read_fields(rest, false, last));
    }
}

/// A row reads back as the fields it was made of: as many, and each as it was,
/// whatever commas, quotes and line breaks it holds.
pub proof fn law_rows_read_back(fields: Seq<Seq<char>>)
    requires
        fields.len() > 0,
    ensures
        read_fields(row_body(fields), false, Seq::empty()) == fields,
{
    let e = Seq::<char>::empty();
    lemma_read_row(fields, e);
    assert(row_body(fields) + e =~= row_body(fields));
    assert(fields.drop_last() + seq![fields.last()] =~= fields);
}

// ---- the manifest ----

/// An original to export.
#[derive(Debug, Clone)]
pub struct ExportFile {
    pub path: String,
    pub size: i64,
}

/// A shot to export, with what the list says of it. Focal length and aperture are
/// given as they are shown.
#[derive(Debug, Clone)]
pub struct ExportPair {
    pub pair_key: String,
    pub decision: String,
    pub stars: i64,
    pub taken_at_text: Option<String>,
    pub camera_model: Option<String>,
    pub lens: Option<String>,
    pub focal_len: Option<String>,
    pub aperture: Option<String>,
    pub shutter: Option<String>,
    pub iso: Option<i64>,
    pub files: Vec<ExportFile>,
}

pub open spec fn decision_label(d: Seq<char>) -> Seq<char> {
    if d == "keep"@ {
        "保留"@
    } else if d == "reject"@ {
        "淘汰"@
    } else {
        "未标记"@
    }
}

fn label_of(d: &str) -> (r: &'static str)
    ensures
        r@ == decision_label(d@),
{
    if same(d, "keep") {
        "保留"
    } else if same(d, "reject") {
        "淘汰"
    } else {
        "未标记"
    }
}

/// The names of the columns.
pub open spec fn header_fields() -> Seq<Seq<char>> {
    seq![
        "决定"@,
        "星级"@,
        "文件名"@,
        "拍摄时间"@,
        "机身"@,
        "镜头"@,
        "焦距mm"@,
        "光圈"@,
        "快门"@,
        "ISO"@,
        "完整路径"@,
    ]
}

/// The row for a shot whose files are gone. It is listed all the same: to leave it
/// out would make it look done.
pub open spec fn missing_fields(p: ExportPair) -> Seq<Seq<char>> {
    let e = Seq::<char>::empty();
    seq![
        decision_label(p.decision@),
        dec_int(p.stars as int),
        "(文件缺失)"@,
        or_empty(opt_view(p.taken_at_text)),
        e,
        e,
        e,
        e,
        e,
        e,
        p.pair_key@,
    ]
}

/// The row for a file.
pub open spec fn file_fields(p: ExportPair, f: ExportFile) -> Seq<Seq<char>> {
    seq![
        decision_label(p.decision@),
        dec_int(p.stars as int),
        or_empty(name_of(f.path@)),
        or_empty(opt_view(p.taken_at_text)),
        or_empty(opt_view(p.camera_model)),
        or_empty(opt_view(p.lens)),
        or_empty(opt_view(p.focal_len)),
        or_empty(opt_view(p.aperture)),
        or_empty(opt_view(p.shutter)),
        match p.iso {
            Some(n) => dec_int(n as int),
            None => Seq::empty(),
        },
        f.path@,
    ]
}

/// The rows for the files of a shot.
pub open spec fn files_rows(p: ExportPair, files: Seq<ExportFile>) -> Seq<Seq<Seq<char>>>
    decreases files.len(),
{
    if files.len() == 0 {
        Seq::empty()
    } else {
        files_rows(p, files.drop_last()).push(file_fields(p, files.last()))
    }
}

/// The rows for a shot: one for each file, or one that says that they are gone.
pub open spec fn pair_rows(p: ExportPair) -> Seq<Seq<Seq<char>>> {
    if p.files@.len() == 0 {
        seq![missing_fields(p)]
    } else {
        files_rows(p, p.files@)
    }
}

/// The rows of the list, without the header.
pub open spec fn manifest_rows(pairs: Seq<ExportPair>) -> Seq<Seq<Seq<char>>>
    decreases pairs.len(),
{
    if pairs.len() == 0 {
        Seq::empty()
    } else {
        manifest_rows(pairs.drop_last()) + pair_rows(pairs.last())
    }
}

/// Rows one below the other.
pub open spec fn rows_text(rows: Seq<Seq<Seq<char>>>) -> Seq<char>
    decreases rows.len(),
{
    if rows.len() == 0 {
        Seq::empty()
    } else {
        rows_text(rows.drop_last()) + row_text(rows.last())
    }
}

/// The list: a byte order mark, by which spreadsheets know the encoding, the
/// header, and the rows.
pub open spec fn manifest_text(pairs: Seq<ExportPair>) -> Seq<char> {
    seq!['\u{feff}'] + row_text(header_fields()) + rows_text(manifest_rows(pairs))
}

fn own_text(s: &Option<String>) -> (r: String)
    ensures
        r@ == or_empty(opt_view(*s)),
{
    match s {
        Some(t) => t.clone(),
        None => text_or_empty(None),
    }
}

fn missing_row(p: &ExportPair) -> (r: String)
    ensures
        r@ == row_text(missing_fields(*p)),
{
    let mut f: Vec<String> = Vec::new();
    f.push(label_of(p.decision.as_str()).to_string());
    f.push(decimal_signed(p.stars));
    f.push("(文件缺失)".to_string());
    f.push(own_text(&p.taken_at_text));
    f.push(text_or_empty(None));
    f.push(text_or_empty(None));
    f.push(text_or_empty(None));
    f.push(text_or_empty(None));
    f.push(text_or_empty(None));
    f.push(text_or_empty(None));
    f.push(p.pair_key.clone());
    assert(views(f@) =~= missing_fields(*p));
    csv_row(&f)
}

fn file_row(p: &ExportPair, file: &ExportFile) -> (r: String)
    ensures
        r@ == row_text(file_fields(*p, *file)),
{
    let mut f: Vec<String> = Vec::new();
    f.push(label_of(p.decision.as_str()).to_string());
    f.push(decimal_signed(p.stars));
    f.push(text_or_empty(file_name(file.path.as_str())));
    f.push(own_text(&p.taken_at_text));
    f.push(own_text(&p.camera_model));
    f.push(own_text(&p.lens));
    f.push(own_text(&p.focal_len));
    f.push(own_text(&p.aperture));
    f.push(own_text(&p.shutter));
    f.push(
        match p.iso {
            Some(n) => decimal_signed(n),
            None => text_or_empty(None),
        },
    );
    f.push(file.path.clone());
    assert(views(f@) =~= file_fields(*p, *file));
    csv_row(&f)
}

fn header_row() -> (r: String)
    ensures
        r@ == row_text(header_fields()),
{
    let mut f: Vec<String> = Vec::new();
    f.push("决定".to_string());
    f.push("星级".to_string());
    f.push("文件名".to_string());
    f.push("拍摄时间".to_string());
    f.push("机身".to_string());
    f.push("镜头".to_string());
    f.push("焦距mm".to_string());
    f.push("光圈".to_string());
    f.push("快门".to_string());
    f.push("ISO".to_string());
    f.push("完整路径".to_string());
    assert(views(f@) =~= header_fields());
    csv_row(&f)
}

proof fn lemma_rows_text_push(rows: Seq<Seq<Seq<char>>>, row: Seq<Seq<char>>)
    ensures
        rows_text(rows.push(row)) == rows_text(rows) + row_text(row),
{
    assert(rows.push(row).drop_last() =~= rows);
}

/// Appends the rows of one shot.
fn push_pair_rows(out: &mut String, p: &ExportPair, Ghost(rows): Ghost<Seq<Seq<Seq<char>>>>)
    ensures
        forall|head: Seq<char>|
            old(out)@ == head + rows_text(rows) ==> final(out)@ == #[trigger] (head + rows_text(
                rows + pair_rows(*p),
            )),
{
    let ghost start = out@;
    if p.files.len() == 0 {
        let line = missing_row(p);
        out.push_str(line.as_str());
        proof {
            assert(rows + seq![missing_fields(*p)] =~= rows.push(missing_fields(*p)));
            lemma_rows_text_push(rows, missing_fields(*p));
            assert forall|head: Seq<char>| start == head + rows_text(rows) implies out@
                == #[trigger] (head + rows_text(rows + pair_rows(*p))) by {
                assert(out@ =~= head + (rows_text(rows) + row_text(missing_fields(*p))));
            }
        }
        return ;
    }
    let ghost files = p.files@;
    let ghost mut added: Seq<char> = Seq::empty();
    proof {
        assert(rows + files_rows(*p, files.take(0)) =~= rows);
        assert(out@ =~= start + added);
        assert(rows_text(rows) + added =~= rows_text(rows));
    }
    for i in 0..p.files.len()
        invariant
            files == p.files@,
            out@ == start + added,
            rows_text(rows + files_rows(*p, files.take(i as int))) == rows_text(rows) + added,
    {
        let line = file_row(p, &p.files[i]);
        out.push_str(line.as_str());
        proof {
            let sofar = rows + files_rows(*p, files.take(i as int));
            let row = file_fields(*p, files[i as int]);
            assert(files.take(i + 1).drop_last() =~= files.take(i as int));
            assert(rows + files_rows(*p, files.take(i + 1)) =~= sofar.push(row));
            lemma_rows_text_push(sofar, row);
            assert((rows_text(rows) + added) + row_text(row) =~= rows_text(rows) + (added
                + row_text(row)));
            assert((start + added) + row_text(row) =~= start + (added + row_text(row)));
            added = added + row_text(row);
        }
    }
    proof {
        assert(files.take(files.len() as int) =~= files);
        assert forall|head: Seq<char>| start == head + rows_text(rows) implies out@ == #[trigger] (
        head + rows_text(rows + pair_rows(*p))) by {
            assert(out@ =~= head + (rows_text(rows) + added));
        }
    }
}

/// The list of an export, as CSV.
pub fn manifest_csv(pairs: &Vec<ExportPair>) -> (r: String)
    ensures
        r@ == manifest_text(pairs@),
{
    let mut out = String::new();
    out.push('\u{feff}');
    let header = header_row();
    out.push_str(header.as_str());
    let ghost head = seq!['\u{feff}'] + row_text(header_fields());
    proof {
        assert(out@ =~= head + rows_text(manifest_rows(pairs@.take(0))));
    }
    for i in 0..pairs.len()
        invariant
            head == seq!['\u{feff}'] + row_text(header_fields()),
            out@ == head + rows_text(manifest_rows(pairs@.take(i as int))),
    {
        proof {
            assert(pairs@.take(i + 1).drop_last() =~= pairs@.take(i as int));
        }
        push_pair_rows(&mut out, &pairs[i], Ghost(manifest_rows(pairs@.take(i as int))));
    }
    assert(pairs@.take(pairs@.len() as int) =~= pairs@);
    out
}

proof fn lemma_files_rows_width(p: ExportPair, files: Seq<ExportFile>)
    ensures
        forall|i: int|
            0 <= i < files_rows(p, files).len() ==> (#[trigger] files_rows(p, files)[i]).len()
                == 11,
        files_rows(p, files).len() == files.len(),
    decreases files.len(),
{
    if files.len() > 0 {
        lemma_files_rows_width(p, files.drop_last());
    }
}

/// Every row of the list is as wide as its header, and reads back as its fields:
/// a list whose columns shift would have people delete the wrong photos.
pub proof fn law_manifest_lines_up(pairs: Seq<ExportPair>, k: int)
    requires
        0 <= k < manifest_rows(pairs).len(),
    ensures
        manifest_rows(pairs)[k].len() == header_fields().len(),
        read_fields(row_body(manifest_rows(pairs)[k]), false, Seq::empty()) == manifest_rows(
            pairs,
        )[k],
        read_fields(row_body(header_fields()), false, Seq::empty()) == header_fields(),
    decreases pairs.len(),
{
    law_rows_read_back(header_fields());
    if pairs.len() > 0 {
        let front = manifest_rows(pairs.drop_last());
        let last = pairs.last();
        lemma_files_rows_width(last, last.files@);
        if k < front.len() {
            law_manifest_lines_up(pairs.drop_last(), k);
            assert(manifest_rows(pairs)[k] == front[k]);
        } else {
            assert(manifest_rows(pairs)[k] == pair_rows(last)[k - front.len()]);
            law_rows_read_back(manifest_rows(pairs)[k]);
        }
    }
}

proof fn lemma_manifest_grows(pairs: Seq<ExportPair>, i: int)
    requires
        0 <= i < pairs.len(),
    ensures
        exists|k: int|
            0 <= k < manifest_rows(pairs).len() && #[trigger] manifest_rows(pairs)[k]
                == pair_rows(pairs[i])[0],
        pair_rows(pairs[i]).len() > 0,
    decreases pairs.len(),
{
    let front = manifest_rows(pairs.drop_last());
    let last = pairs.last();
    lemma_files_rows_width(last, last.files@);
    if i == pairs.len() - 1 {
        assert(manifest_rows(pairs)[front.len() as int] == pair_rows(last)[0]);
    } else {
        lemma_manifest_grows(pairs.drop_last(), i);
        let k = choose|k: int|
            0 <= k < front.len() && #[trigger] front[k] == pair_rows(pairs.drop_last()[i])[0];
        assert(manifest_rows(pairs)[k] == front[k]);
    }
}

/// No shot is left out of the list, also not one whose files are gone.
pub proof fn law_every_shot_is_listed(pairs: Seq<ExportPair>, i: int)
    requires
        0 <= i < pairs.len(),
    ensures
        pair_rows(pairs[i]).len() > 0,
        manifest_rows(pairs).contains(pair_rows(pairs[i])[0]),
{
    lemma_manifest_grows(pairs, i);
}

// ---------------------------------------------------------------------------
// Collecting
// ---------------------------------------------------------------------------

pub const EXPORT_TAIL: &'static str = ", p.camera_model, p.lens, p.focal_len, p.aperture, p.shutter, p.iso ";

/// What an export needs of the shots that meet a condition, in an order.
pub open spec fn export_text(w: Seq<char>, order: Seq<char>) -> Seq<char> {
    "SELECT p.pair_key, "@ + DECISION@ + ", "@ + STARS@ + ", "@ + TIME_TEXT@ + EXPORT_TAIL@
        + FROM_PHOTOS@ + " WHERE "@ + w + " "@ + order
}

/// The query for the shots to export, in the order in which they are shown.
pub fn export_query(f: &PairFilter, sep: char) -> (r: Query)
    ensures
        r.sql@ == export_text(where_text(f@, sep), order_text(sort_key(f@.sort))),
        args_view(r.args@) == conditions(f@, sep).args,
{
    let (w, args) = build_where(f, sep);
    let order = match &f.sort {
        Some(s) => order_by(Some(s.as_str())),
        None => order_by(None),
    };
    let mut sql = "SELECT p.pair_key, ".to_string();
    sql.push_str(DECISION);
    sql.push_str(", ");
    sql.push_str(STARS);
    sql.push_str(", ");
    sql.push_str(TIME_TEXT);
    sql.push_str(EXPORT_TAIL);
    sql.push_str(FROM_PHOTOS);
    sql.push_str(" WHERE ");
    sql.push_str(w.as_str());
    sql.push_str(" ");
    sql.push_str(order);
    Query { sql, args }
}

/// The query for the files of `n` shots.
pub fn export_files_sql(n: usize) -> (r: String)
    ensures
        r@ == "SELECT pair_key, path, file_size, file_kind FROM photos WHERE pair_key IN ("@
            + holders(n as nat) + ")"@,
{
    let list = placeholder_list(n);
    cat3(
        "SELECT pair_key, path, file_size, file_kind FROM photos WHERE pair_key IN (",
        list.as_str(),
        ")",
    )
}

/// A file that belongs to the shot number `pair`.
#[derive(Debug, Clone)]
pub struct FileRow {
    pub pair: usize,
    pub path: String,
    pub size: i64,
    pub kind: String,
}

/// The files of the shot number `pair` that the scope takes.
pub open spec fn files_in(rows: Seq<FileRow>, pair: int, scope: FileScope) -> Seq<
    (Seq<char>, i64),
>
    decreases rows.len(),
{
    if rows.len() == 0 {
        Seq::empty()
    } else {
        let rest = files_in(rows.drop_last(), pair, scope);
        let r = rows.last();
        if r.pair == pair && scope.takes(r.kind@) {
            rest.push((r.path@, r.size))
        } else {
            rest
        }
    }
}

pub open spec fn files_view(f: Seq<ExportFile>) -> Seq<(Seq<char>, i64)> {
    f.map_values(|x: ExportFile| (x.path@, x.size))
}

/// In the order of their paths.
pub open spec fn sorted_by_path(f: Seq<(Seq<char>, i64)>) -> bool {
    forall|i: int, j: int| 0 <= i < j < f.len() ==> text_le((#[trigger] f[i]).0, (#[trigger] f[j]).0)
}

/// Whether `a` comes no later than `b`.
fn is_le(a: &str, b: &str) -> (r: bool)
    ensures
        r == text_le(a@, b@),
{
    let x = chars_of(a);
    let y = chars_of(b);
    let mut i: usize = 0;
    proof {
        assert(x@.skip(0) =~= x@);
        assert(y@.skip(0) =~= y@);
    }
    while i < x.len() && i < y.len() && x[i] == y[i]
        invariant
            i <= x@.len(),
            i <= y@.len(),
            text_le(x@, y@) == text_le(x@.skip(i as int), y@.skip(i as int)),
        decreases x@.len() - i,
    {
        proof {
            assert(x@.skip(i as int).skip(1) =~= x@.skip(i + 1));
            assert(y@.skip(i as int).skip(1) =~= y@.skip(i + 1));
        }
        i = i + 1;
    }
    if i >= x.len() {
        true
    } else if i >= y.len() {
        false
    } else {
        x[i] < y[i]
    }
}

/// Puts a file in its place among sorted files, behind those with the same path.
fn insert_file(files: &mut Vec<ExportFile>, f: ExportFile)
    requires
        sorted_by_path(files_view(old(files)@)),
    ensures
        sorted_by_path(files_view(final(files)@)),
        files_view(final(files)@).to_multiset() == files_view(old(files)@).to_multiset().insert(
            (f.path@, f.size),
        ),
{
    let ghost before = files_view(files@);
    let ghost item = (f.path@, f.size);
    let mut at: usize = files.len();
    while at > 0 && !is_le(files[at - 1].path.as_str(), f.path.as_str())
        invariant
            at <= files@.len(),
            before == files_view(files@),
            item == (f.path@, f.size),
            sorted_by_path(before),
            forall|j: int| at <= j < before.len() ==> text_le(item.0, (#[trigger] before[j]).0),
        decreases at,
    {
        proof {
            assert(before[at - 1].0 == files@[at - 1].path@);
            lemma_text_le_total(before[at - 1].0, item.0);
        }
        at = at - 1;
    }
    proof {
        assert(at > 0 ==> before[at - 1].0 == files@[at - 1].path@);
    }
    files.insert(at, f);
    let ghost after = files_view(files@);
    proof {
        assert(after =~= before.insert(at as int, item));
        vstd::seq_lib::to_multiset_insert(before, at as int, item);
        assert forall|i: int, j: int| 0 <= i < j < after.len() implies text_le(
            (#[trigger] after[i]).0,
            (#[trigger] after[j]).0,
        ) by {
            if i < at && j == at {
                if i < at - 1 {
                    lemma_text_le_transitive(before[i].0, before[at - 1].0, item.0);
                }
            } else if i < at && j > at {
                assert(text_le(before[i].0, before[j - 1].0));
            } else if i == at {
                assert(text_le(item.0, before[j - 1].0));
            } else if i > at {
                assert(text_le(before[i - 1].0, before[j - 1].0));
            } else {
                assert(text_le(before[i].0, before[j].0));
            }
        }
    }
}

/// `r` holds the files of a shot that the scope takes, in the order of their paths,
/// so that two exports of the same photos run alike.
pub open spec fn is_files_of(
    r: Seq<ExportFile>,
    rows: Seq<FileRow>,
    pair: int,
    scope: FileScope,
) -> bool {
    &&& files_view(r).to_multiset() == files_in(rows, pair, scope).to_multiset()
    &&& sorted_by_path(files_view(r))
}

/// The files of the shot number `pair`.
pub fn files_of_pair(rows: &Vec<FileRow>, pair: usize, scope: FileScope) -> (r: Vec<ExportFile>)
    ensures
        is_files_of(r@, rows@, pair as int, scope),
{
    let mut out: Vec<ExportFile> = Vec::new();
    proof {
        assert(files_view(out@) =~= files_in(rows@.take(0), pair as int, scope));
    }
    for i in 0..rows.len()
        invariant
            is_files_of(out@, rows@.take(i as int), pair as int, scope),
    {
        proof {
            assert(rows@.take(i + 1).drop_last() =~= rows@.take(i as int));
        }
        let row = &rows[i];
        if row.pair == pair && scope.keeps(row.kind.as_str()) {
            let ghost sofar = files_in(rows@.take(i as int), pair as int, scope);
            insert_file(&mut out, ExportFile { path: row.path.clone(), size: row.size });
            proof {
                sofar.to_multiset_ensures();
                assert(sofar.push((row.path@, row.size)).to_multiset() =~= sofar.to_multiset().insert(
                    (row.path@, row.size),
                ));
            }
        }
    }
    assert(rows@.take(rows@.len() as int) =~= rows@);
    out
}

/// Adds to each shot its files.
pub fn attach_files(pairs: Vec<ExportPair>, rows: &Vec<FileRow>, scope: FileScope) -> (r: Vec<
    ExportPair,
>)
    ensures
        r@.len() == pairs@.len(),
        forall|i: int|
            0 <= i < pairs@.len() ==> {
                &&& is_files_of((#[trigger] r@[i]).files@, rows@, i, scope)
                &&& r@[i] == (ExportPair { files: r@[i].files, ..pairs@[i] })
            },
{
    let mut rest = pairs;
    let mut rev: Vec<ExportPair> = Vec::new();
    let n: usize = rest.len();
    let ghost all = pairs@;
    while rest.len() > 0
        invariant
            n == all.len(),
            rest@.len() + rev@.len() == n,
            rest@ =~= all.take(rest@.len() as int),
            forall|k: int|
                0 <= k < rev@.len() ==> {
                    &&& is_files_of((#[trigger] rev@[k]).files@, rows@, n - 1 - k, scope)
                    &&& rev@[k] == (ExportPair { files: rev@[k].files, ..all[n - 1 - k] })
                },
        decreases rest@.len(),
    {
        let at: usize = rest.len() - 1;
        if let Some(mut p) = rest.pop() {
            assert(p == all[at as int]);
            p.files = files_of_pair(rows, at, scope);
            rev.push(p);
        }
    }
    let mut out: Vec<ExportPair> = Vec::new();
    let ghost done = rev@;
    while rev.len() > 0
        invariant
            n == all.len(),
            done.len() == n,
            rev@.len() + out@.len() == n,
            rev@ =~= done.take(rev@.len() as int),
            forall|i: int| 0 <= i < out@.len() ==> #[trigger] out@[i] == done[n - 1 - i],
        decreases rev@.len(),
    {
        if let Some(p) = rev.pop() {
            out.push(p);
        }
    }
    assert forall|i: int| 0 <= i < all.len() implies {
        &&& is_files_of((#[trigger] out@[i]).files@, rows@, i, scope)
        &&& out@[i] == (ExportPair { files: out@[i].files, ..all[i] })
    } by {
        assert(out@[i] == done[n - 1 - i]);
    }
    out
}

// ---------------------------------------------------------------------------
// An export under way
// ---------------------------------------------------------------------------

/// How far an export has come.
#[derive(Debug, Clone, Copy)]
pub struct ExportProgress {
    /// listing, copying or manifest.
    pub phase: &'static str,
    pub done: usize,
    pub total: usize,
}

/// After how many files the progress is reported.
pub const EXPORT_PROGRESS_STEP: usize = 32;

/// The name of the list in the target directory.
pub const MANIFEST_NAME: &'static str = "选片清单.csv";

/// The template that an export uses: the one asked for, unless it is blank.
pub open spec fn template_of(t: Option<Seq<char>>) -> Seq<char> {
    match t {
        Some(s) if trimmed(s).len() > 0 => trimmed(s),
        _ => DEFAULT_NAME_TEMPLATE@,
    }
}

pub fn export_template(t: Option<&str>) -> (r: String)
    ensures
        r@ == template_of(
            match t {
                Some(s) => Some(s@),
                None => None,
            },
        ),
{
    if let Some(s) = t {
        let u = trim(s);
        let n: usize = chars_of(u.as_str()).len();
        if n > 0 {
            return u;
        }
    }
    DEFAULT_NAME_TEMPLATE.to_string()
}

/// Whether an export in this mode copies files; otherwise it only writes the list.
pub fn copies_files(mode: &str) -> (r: bool)
    ensures
        r == (mode@ == "copy"@),
{
    same(mode, "copy")
}

/// What the variables of a template stand for, for a file of the shot number
/// `index`.
pub open spec fn context_of(p: ExportPair, f: ExportFile, index: int) -> CtxModel {
    let (date, time) = date_and_time(opt_view(p.taken_at_text));
    CtxModel {
        stem: or_empty(stem_of(f.path@)),
        ext: or_empty(ext_of(f.path@)),
        date,
        time,
        seq: (index + 1) as nat,
        stars: p.stars as int,
        camera: or_empty(opt_view(p.camera_model)),
        pair: p.pair_key@,
    }
}

/// The name for the copy of a file of the shot number `index`, counted from 0.
pub fn copy_name(template: &str, p: &ExportPair, f: &ExportFile, index: usize) -> (r: String)
    requires
        index < usize::MAX,
    ensures
        r@ == rendered(template@, context_of(*p, *f, index as int)),
{
    let (date, time) = match &p.taken_at_text {
        Some(s) => split_datetime(Some(s.as_str())),
        None => split_datetime(None),
    };
    let (stem, ext) = split_ext(f.path.as_str());
    let camera = own_text(&p.camera_model);
    let ctx = NameCtx {
        stem: stem.as_str(),
        ext: ext.as_str(),
        date: date.as_str(),
        time: time.as_str(),
        seq: index + 1,
        stars: p.stars,
        camera: camera.as_str(),
        pair: p.pair_key.as_str(),
    };
    assert(ctx@ == context_of(*p, *f, index as int));
    render_name(template, &ctx)
}

/// What came of copying a file.
#[derive(Debug, Clone, Copy, PartialEq, Eq, Structural)]
pub enum Outcome {
    /// So many bytes were copied.
    Copied(u64),
    /// The file was there already.
    Skipped,
    Failed,
}

/// The number of files of some shots.
pub open spec fn files_count(pairs: Seq<ExportPair>) -> nat
    decreases pairs.len(),
{
    if pairs.len() == 0 {
        0
    } else {
        files_count(pairs.drop_last()) + pairs.last().files@.len()
    }
}

/// The number of files of some shots; none where it is too large.
pub fn count_files(pairs: &Vec<ExportPair>) -> (r: Option<usize>)
    ensures
        r == if files_count(pairs@) <= usize::MAX {
            Some(files_count(pairs@) as usize)
        } else {
            None
        },
{
    let mut total: usize = 0;
    for i in 0..pairs.len()
        invariant
            total == files_count(pairs@.take(i as int)),
    {
        proof {
            assert(pairs@.take(i + 1).drop_last() =~= pairs@.take(i as int));
            lemma_files_count_grows(pairs@, i + 1);
        }
        total = match total.checked_add(pairs[i].files.len()) {
            Some(n) => n,
            None => return None,
        };
    }
    assert(pairs@.take(pairs@.len() as int) =~= pairs@);
    Some(total)
}

proof fn lemma_files_count_grows(pairs: Seq<ExportPair>, i: int)
    requires
        0 <= i <= pairs.len(),
    ensures
        files_count(pairs.take(i)) <= files_count(pairs),
    decreases pairs.len(),
{
    if i < pairs.len() {
        assert(pairs.drop_last().take(i) =~= pairs.take(i));
        lemma_files_count_grows(pairs.drop_last(), i);
    } else {
        assert(pairs.take(i) =~= pairs);
    }
}

/// The counts of an export under way.
#[derive(Debug, Clone, Copy, PartialEq, Eq, Structural)]
pub struct ExportRun {
    pub total: usize,
    pub done: usize,
    pub copied: usize,
    pub skipped: usize,
    pub failed: usize,
    pub bytes: u64,
}

impl ExportRun {
    /// Every file so far was copied, skipped, or failed.
    pub open spec fn wf(self) -> bool {
        self.copied + self.skipped + self.failed == self.done && self.done <= self.total
    }

    pub fn start(total: usize) -> (r: Self)
        ensures
            r == (ExportRun { total, done: 0, copied: 0, skipped: 0, failed: 0, bytes: 0 }),
            r.wf(),
    {
        ExportRun { total, done: 0, copied: 0, skipped: 0, failed: 0, bytes: 0 }
    }

    /// The counts after one more file.
    pub open spec fn after(self, o: Outcome) -> ExportRun {
        let r = ExportRun { done: (self.done + 1) as usize, ..self };
        match o {
            Outcome::Copied(n) => ExportRun {
                copied: (self.copied + 1) as usize,
                bytes: (self.bytes + n) as u64,
                ..r
            },
            Outcome::Skipped => ExportRun { skipped: (self.skipped + 1) as usize, ..r },
            Outcome::Failed => ExportRun { failed: (self.failed + 1) as usize, ..r },
        }
    }

    /// Counts one file, and gives the progress to report, if any.
    pub fn record(&mut self, o: Outcome) -> (r: Option<ExportProgress>)
        requires
            old(self).wf(),
            old(self).done < old(self).total,
            o matches Outcome::Copied(n) ==> old(self).bytes + n <= u64::MAX,
        ensures
            final(self).wf(),
            *final(self) == old(self).after(o),
            r is Some <==> (final(self).done % EXPORT_PROGRESS_STEP == 0 || final(self).done
                == final(self).total),
            r matches Some(p) ==> p.phase@ == "copying"@ && p.done == final(self).done && p.total
                == final(self).total,
    {
        self.done = self.done + 1;
        match o {
            Outcome::Copied(n) => {
                self.copied = self.copied + 1;
                self.bytes = self.bytes + n;
            },
            Outcome::Skipped => {
                self.skipped = self.skipped + 1;
            },
            Outcome::Failed => {
                self.failed = self.failed + 1;
            },
        }
        if self.done % EXPORT_PROGRESS_STEP == 0 || self.done == self.total {
            Some(ExportProgress { phase: "copying", done: self.done, total: self.total })
        } else {
            None
        }
    }
}

/// When an export is through, its counts add up to the number of files.
pub proof fn law_every_export_is_counted(run: ExportRun)
    requires
        run.wf(),
        run.done == run.total,
    ensures
        run.copied + run.skipped + run.failed == run.total,
{
}

} // verus!
