//! What the values in a file and the texts made of them mean.
use vstd::prelude::*;

use crate::analyze::{failures, targets_in, Target};
use crate::exif_detail::{
    comment_text,
    dms_in,
    focus_value,
    strip_end,
    trim_zeros,
    wide_chars,
};
use crate::exif_doc::{ascii_in, latin, until_nul, DocModel, Ratio, Tag, ValueModel};
use crate::export::{
    clean,
    cleaned,
    files_in,
    filled,
    has_suffix,
    name_with,
    CtxModel,
    FileRow,
    FileScope,
};
use crate::filepath::is_under;
use crate::indexer::{shutter_form, Shutter};
use crate::text::{is_space, trim_back, trim_front, trimmed};
use crate::wording::{is_plain, lemma_replaced_plain};

verus! {

// ---------------------------------------------------------------------------
// Texts in a file
// ---------------------------------------------------------------------------

/// A text whose characters have one byte each.
pub open spec fn is_narrow(s: Seq<char>) -> bool {
    forall|i: int| 0 <= i < s.len() ==> (#[trigger] s[i]) as u32 <= 0xff
}

/// Its bytes.
pub open spec fn narrow_bytes(s: Seq<char>) -> Seq<u8> {
    s.map_values(|c: char| c as u8)
}

proof fn lemma_narrow_char(c: char)
    requires
        c as u32 <= 0xff,
    ensures
        (c as u8) as char == c,
        c != '\0' ==> c as u8 != 0,
{
    vstd::utf8::char_is_scalar(c);
    vstd::utf8::char_u32_cast(c, c as u32);
    let b = c as u8;
    assert(b as u32 == c as u32);
}

proof fn lemma_until_nul(b: Seq<u8>, rest: Seq<u8>)
    requires
        forall|i: int| 0 <= i < b.len() ==> #[trigger] b[i] != 0,
    ensures
        until_nul(b + seq![0u8] + rest) == b,
        until_nul(b) == b,
    decreases b.len(),
{
    let s = b + seq![0u8] + rest;
    if b.len() == 0 {
        assert(s[0] == 0);
        assert(until_nul(s) =~= b);
        assert(until_nul(b) =~= b);
    } else {
        assert(s[0] == b[0]);
        let t = b.skip(1);
        assert forall|i: int| 0 <= i < t.len() implies #[trigger] t[i] != 0 by {
            assert(t[i] == b[i + 1]);
        }
        lemma_until_nul(t, rest);
        assert(s.skip(1) =~= t + seq![0u8] + rest);
        assert(until_nul(s) =~= b);
        assert(until_nul(b) =~= b);
    }
}

proof fn lemma_trimmed_itself(s: Seq<char>)
    requires
        s.len() > 0,
        !is_space(s[0]),
        !is_space(s.last()),
    ensures
        trimmed(s) == s,
{
    assert(trim_front(s) == s);
    assert(trim_back(s) == s);
}

/// A text in a field reads back, up to the first zero byte; what stands behind it, and the
/// texts behind the first, make no difference.
pub proof fn law_texts_read_back(s: Seq<char>, rest: Seq<u8>, more: Seq<Seq<u8>>)
    requires
        s.len() > 0,
        is_narrow(s),
        !s.contains('\0'),
        !is_space(s[0]),
        !is_space(s.last()),
    ensures
        ascii_in(ValueModel::Ascii(seq![narrow_bytes(s)] + more)) == Some(s),
        ascii_in(ValueModel::Ascii(seq![narrow_bytes(s) + seq![0u8] + rest] + more)) == Some(s),
{
    let b = narrow_bytes(s);
    assert forall|i: int| 0 <= i < b.len() implies #[trigger] b[i] != 0 by {
        assert(s.contains(s[i]));
        lemma_narrow_char(s[i]);
    }
    lemma_until_nul(b, rest);
    assert(latin(b) =~= s) by {
        assert forall|i: int| 0 <= i < s.len() implies latin(b)[i] == s[i] by {
            lemma_narrow_char(s[i]);
        }
    }
    lemma_trimmed_itself(s);
    assert((seq![b] + more)[0] == b);
    assert((seq![b + seq![0u8] + rest] + more)[0] == b + seq![0u8] + rest);
}

/// A text whose characters have two bytes each.
pub open spec fn is_wide(s: Seq<char>) -> bool {
    forall|i: int| 0 <= i < s.len() ==> (#[trigger] s[i]) as u32 <= 0xffff
}

/// Its bytes, the high one of each character first.
pub open spec fn wide_bytes(s: Seq<char>) -> Seq<u8>
    decreases s.len(),
{
    if s.len() == 0 {
        Seq::empty()
    } else {
        seq![(s[0] as u32 / 256) as u8, (s[0] as u32 % 256) as u8] + wide_bytes(s.skip(1))
    }
}

proof fn lemma_wide(s: Seq<char>)
    requires
        is_wide(s),
    ensures
        wide_chars(wide_bytes(s)) == s,
    decreases s.len(),
{
    let b = wide_bytes(s);
    if s.len() == 0 {
        assert(wide_chars(b) =~= s);
    } else {
        let t = s.skip(1);
        assert forall|i: int| 0 <= i < t.len() implies (#[trigger] t[i]) as u32 <= 0xffff by {
            assert(t[i] == s[i + 1]);
        }
        lemma_wide(t);
        assert(s[0] as u32 <= 0xffff);
        assert(b[0] == (s[0] as u32 / 256) as u8 && b[1] == (s[0] as u32 % 256) as u8);
        assert(b.skip(2) =~= wide_bytes(t));
        let u = b[0] as u32 * 256 + b[1] as u32;
        assert(u == s[0] as u32);
        vstd::utf8::char_is_scalar(s[0]);
        vstd::utf8::char_u32_cast(s[0], u as u32);
        assert(wide_chars(b) =~= seq![s[0]] + t);
        assert(seq![s[0]] + t =~= s);
    }
}

/// A comment reads back, behind the eight bytes that say how it is written: with two bytes
/// for each character behind the word `UNICODE`, else with one.
pub proof fn law_comments_read_back(s: Seq<char>, marker: Seq<u8>)
    requires
        s.len() > 0,
        marker.len() == 8,
    ensures
        is_wide(s) ==> comment_text(
            narrow_bytes(seq!['U', 'N', 'I', 'C', 'O', 'D', 'E', '\0']) + wide_bytes(s),
        ) == s,
        is_narrow(s) && marker != narrow_bytes(seq!['U', 'N', 'I', 'C', 'O', 'D', 'E', '\0'])
            ==> comment_text(marker + narrow_bytes(s)) == s,
{
    let word = narrow_bytes(seq!['U', 'N', 'I', 'C', 'O', 'D', 'E', '\0']);
    assert(word =~= seq![0x55u8, 0x4eu8, 0x49u8, 0x43u8, 0x4fu8, 0x44u8, 0x45u8, 0u8]);
    if is_wide(s) {
        let b = word + wide_bytes(s);
        lemma_wide(s);
        assert(wide_bytes(s).len() > 0);
        assert(b.take(8) =~= word);
        assert(b.skip(8) =~= wide_bytes(s));
    }
    if is_narrow(s) && marker != word {
        let b = marker + narrow_bytes(s);
        assert(b.take(8) =~= marker);
        assert(b.skip(8) =~= narrow_bytes(s));
        assert forall|i: int| 0 <= i < s.len() implies latin(narrow_bytes(s))[i] == s[i] by {
            lemma_narrow_char(s[i]);
        }
        assert(latin(narrow_bytes(s)) =~= s);
    }
}

/// An angle is stored as degrees, minutes and seconds, in this order.
pub proof fn law_angles_are_degrees_minutes_seconds(
    doc: DocModel,
    t: Tag,
    degrees: (u32, u32),
    minutes: (u32, u32),
    seconds: (u32, u32),
    more: Seq<(u32, u32)>,
)
    ensures
        doc.get(t) == Some(ValueModel::Rational(seq![degrees, minutes, seconds] + more)) ==> {
            let d = dms_in(doc, t);
            &&& d is Some
            &&& d->Some_0.degrees == Ratio::Unsigned(degrees.0, degrees.1)
            &&& d->Some_0.minutes == Ratio::Unsigned(minutes.0, minutes.1)
            &&& d->Some_0.seconds == Ratio::Unsigned(seconds.0, seconds.1)
        },
        doc.get(t) == Some(ValueModel::Rational(seq![degrees, minutes])) ==> dms_in(doc, t) is None,
{
    let v = seq![degrees, minutes, seconds] + more;
    assert(v[0] == degrees && v[1] == minutes && v[2] == seconds);
}

/// An exposure of less than a second is shown as one over a number, and any other in
/// seconds.
pub proof fn law_short_exposures_are_fractions(n: u32, d: u32)
    ensures
        0 < n < d ==> shutter_form(ValueModel::Rational(seq![(n, d)])) == Shutter::OneOver(
            Ratio::Unsigned(n, d),
        ),
        n >= d || n == 0 ==> shutter_form(ValueModel::Rational(seq![(n, d)])) == Shutter::Seconds(
            Ratio::Unsigned(n, d),
        ),
        shutter_form(ValueModel::Rational(Seq::empty())) == Shutter::Seconds(Ratio::Unsigned(0, 1)),
{
}

proof fn lemma_strip(s: Seq<char>, c: char, k: nat)
    requires
        s.len() == 0 || s.last() != c,
    ensures
        strip_end(s + Seq::new(k, |i: int| c), c) == s,
    decreases k,
{
    let t = s + Seq::new(k, |i: int| c);
    if k == 0 {
        assert(t =~= s);
    } else {
        assert(t.last() == c);
        assert(t.drop_last() =~= s + Seq::new((k - 1) as nat, |i: int| c));
        lemma_strip(s, c, (k - 1) as nat);
    }
}

/// Zeros at the end of a fraction are not shown, and where nothing else is behind the
/// point, the point is not either. A whole number keeps its zeros.
pub proof fn law_zeros_behind_the_point_are_dropped(
    whole: Seq<char>,
    fraction: Seq<char>,
    zeros: nat,
)
    requires
        whole.len() > 0,
        !whole.contains('.'),
        fraction.len() > 0,
        fraction.last() != '0',
        fraction.last() != '.',
    ensures
        trim_zeros(whole + seq!['.'] + fraction + Seq::new(zeros, |i: int| '0')) == whole
            + seq!['.'] + fraction,
        trim_zeros(whole + seq!['.'] + Seq::new(zeros, |i: int| '0')) == whole,
        trim_zeros(whole) == whole,
{
    let z = Seq::new(zeros, |i: int| '0');
    let a = whole + seq!['.'] + fraction;
    assert(a.last() == fraction.last());
    lemma_strip(a, '0', zeros);
    assert((a + z)[whole.len() as int] == '.');
    assert((a + z).contains('.'));
    lemma_strip(a, '.', 0);
    assert(a + Seq::new(0, |i: int| '.') =~= a);
    let b = whole + seq!['.'];
    assert(b.last() == '.');
    lemma_strip(b, '0', zeros);
    assert((b + z)[whole.len() as int] == '.');
    assert((b + z).contains('.'));
    assert(whole.contains(whole.last()));
    lemma_strip(whole, '.', 1);
    assert(whole + Seq::new(1, |i: int| '.') =~= b);
}

/// The focus area is shown by its place, across before down, and its size, width before
/// height, all in hundredths; the mode comes last where it is known.
pub proof fn law_focus_is_shown_across_before_down(
    x: Seq<char>,
    y: Seq<char>,
    w: Seq<char>,
    h: Seq<char>,
    mode: Seq<char>,
)
    ensures
        ({
            let plain = "横向 "@ + x + "%、纵向 "@ + y + "%（区域 "@ + w + "% × "@ + h + "%）"@;
            &&& focus_value(x, y, w, h, None) == plain
            &&& focus_value(x, y, w, h, Some(mode)) == plain + " · "@ + mode
        }),
{
    let plain = "横向 "@ + x + "%、纵向 "@ + y + "%（区域 "@ + w + "% × "@ + h + "%）"@;
    assert(focus_value(x, y, w, h, None) =~= plain);
    assert(focus_value(x, y, w, h, Some(mode)) =~= plain + " · "@ + mode);
}

// ---------------------------------------------------------------------------
// Names of copies
// ---------------------------------------------------------------------------

/// An underscore stands in a file name for each of the nine characters that Windows does
/// not take; every other character stays where it is.
pub proof fn law_bad_characters_become_underscores(s: Seq<char>, i: int)
    requires
        0 <= i < s.len(),
    ensures
        cleaned(s).len() == s.len(),
        "<>:\"/\\|?*"@.contains(s[i]) ==> cleaned(s)[i] == '_',
        !"<>:\"/\\|?*"@.contains(s[i]) ==> cleaned(s)[i] == s[i],
        cleaned(cleaned(s)) == cleaned(s),
{
    reveal_strlit("<>:\"/\\|?*");
    let bad = "<>:\"/\\|?*"@;
    assert(bad[0] == '<' && bad[1] == '>' && bad[2] == ':' && bad[3] == '"' && bad[4] == '/'
        && bad[5] == '\\' && bad[6] == '|' && bad[7] == '?' && bad[8] == '*');
    if bad.contains(s[i]) {
        let k = choose|k: int| 0 <= k < bad.len() && bad[k] == s[i];
        assert(bad.len() == 9);
    } else {
        assert(bad.contains(bad[0]) && bad.contains(bad[1]) && bad.contains(bad[2])
            && bad.contains(bad[3]) && bad.contains(bad[4]) && bad.contains(bad[5])
            && bad.contains(bad[6]) && bad.contains(bad[7]) && bad.contains(bad[8]));
    }
    assert(cleaned(cleaned(s)) =~= cleaned(s));
}

proof fn lemma_filled_plain(template: Seq<char>, c: CtxModel)
    requires
        is_plain(template),
    ensures
        filled(template, c) == template,
{
    reveal_strlit("{name}");
    reveal_strlit("{ext}");
    reveal_strlit("{date}");
    reveal_strlit("{time}");
    reveal_strlit("{seq}");
    reveal_strlit("{stars}");
    reveal_strlit("{camera}");
    reveal_strlit("{pair}");
    lemma_replaced_plain(template, "{name}"@, c.stem);
    lemma_replaced_plain(template, "{ext}"@, c.ext);
    lemma_replaced_plain(template, "{date}"@, c.date);
    lemma_replaced_plain(template, "{time}"@, c.time);
    lemma_replaced_plain(template, "{seq}"@, crate::text::dec_padded(c.seq, 4));
    lemma_replaced_plain(template, "{stars}"@, crate::text::dec_int(c.stars));
    lemma_replaced_plain(template, "{camera}"@, c.camera);
    lemma_replaced_plain(template, "{pair}"@, c.pair);
}

/// A name that can be used as it is gets the extension of the photo, and no second one
/// where it has it already.
pub proof fn law_names_get_their_extension(
    name: Seq<char>,
    c: CtxModel,
    low: Seq<char>,
    low_ext: Seq<char>,
)
    requires
        is_plain(name),
        name.len() > 0,
        !is_space(name[0]),
        cleaned(name) == name,
        c.ext.len() > 0,
        cleaned(c.ext) == c.ext,
        name != seq!['.'] + c.ext,
    ensures
        has_suffix(low, seq!['.'] + low_ext) ==> name_with(name, c, low, low_ext) == name,
        !has_suffix(low, seq!['.'] + low_ext) ==> name_with(name, c, low, low_ext) == name
            + seq!['.'] + c.ext,
{
    reveal_strlit(".");
    assert("."@ =~= seq!['.']);
    lemma_filled_plain(name, c);
    assert(trim_front(name) == name);
    lemma_not_blank(name);
    let long = name.push('.') + c.ext;
    assert(long =~= name + seq!['.'] + c.ext);
    assert(cleaned(long) =~= cleaned(name) + seq![clean('.')] + cleaned(c.ext));
    assert(cleaned(long) =~= long);
    assert(long[0] == name[0]);
    assert(trim_front(long) == long);
    lemma_not_blank(long);
    assert(long.len() > ("."@ + cleaned(c.ext)).len());
}

proof fn lemma_not_blank(s: Seq<char>)
    requires
        s.len() > 0,
        !is_space(s[0]),
    ensures
        trim_back(s).len() > 0,
    decreases s.len(),
{
    if is_space(s.last()) {
        assert(s.len() > 1);
        lemma_not_blank(s.drop_last());
    }
}

// ---------------------------------------------------------------------------
// Which photos and files
// ---------------------------------------------------------------------------

/// A photo is judged where it lies in one of the given directories, or where none is
/// given; the others are passed over, and the order stays.
pub proof fn law_photos_in_scope_are_judged(
    rows: Seq<Target>,
    t: Target,
    roots: Seq<Seq<char>>,
)
    ensures
        roots.len() == 0 || (exists|i: int|
            0 <= i < roots.len() && is_under(t.path@, #[trigger] roots[i])) ==> targets_in(
            rows.push(t),
            roots,
        ) == targets_in(rows, roots).push((t.id, t.path@)),
        roots.len() > 0 && (forall|i: int|
            0 <= i < roots.len() ==> !is_under(t.path@, #[trigger] roots[i])) ==> targets_in(
            rows.push(t),
            roots,
        ) == targets_in(rows, roots),
        targets_in(Seq::empty(), roots).len() == 0,
{
    assert(rows.push(t).drop_last() =~= rows);
    assert(rows.push(t).last() == t);
}

/// Each photo that could not be judged counts as one failure, and no other does.
pub proof fn law_failures_are_counted_once(a: Seq<bool>, b: Seq<bool>)
    ensures
        failures(a + b) == failures(a) + failures(b),
        failures(seq![false]) == 1,
        failures(seq![true]) == 0,
    decreases b.len(),
{
    reveal_with_fuel(failures, 2);
    assert(seq![false].drop_last() =~= Seq::<bool>::empty());
    assert(seq![true].drop_last() =~= Seq::<bool>::empty());
    if b.len() == 0 {
        assert(a + b =~= a);
    } else {
        law_failures_are_counted_once(a, b.drop_last());
        assert((a + b).drop_last() =~= a + b.drop_last());
        assert((a + b).last() == b.last());
    }
}

/// A file is exported with the shot it belongs to, where it is of a kind that is asked
/// for, and with no other.
pub proof fn law_files_go_with_their_shot(
    rows: Seq<FileRow>,
    r: FileRow,
    pair: int,
)
    ensures
        r.pair == pair ==> files_in(rows.push(r), pair, FileScope::Both) == files_in(
            rows,
            pair,
            FileScope::Both,
        ).push((r.path@, r.size)),
        r.pair == pair && r.kind@ == "raw"@ ==> files_in(rows.push(r), pair, FileScope::Raw)
            == files_in(rows, pair, FileScope::Raw).push((r.path@, r.size)),
        r.pair == pair && r.kind@ == "jpeg"@ ==> files_in(rows.push(r), pair, FileScope::Jpeg)
            == files_in(rows, pair, FileScope::Jpeg).push((r.path@, r.size)),
        r.pair != pair || r.kind@ != "raw"@ ==> files_in(rows.push(r), pair, FileScope::Raw)
            == files_in(rows, pair, FileScope::Raw),
        r.pair != pair || r.kind@ != "jpeg"@ ==> files_in(rows.push(r), pair, FileScope::Jpeg)
            == files_in(rows, pair, FileScope::Jpeg),
        r.pair != pair ==> files_in(rows.push(r), pair, FileScope::Both) == files_in(
            rows,
            pair,
            FileScope::Both,
        ),
{
    assert(rows.push(r).drop_last() =~= rows);
    assert(rows.push(r).last() == r);
}

} // verus!
