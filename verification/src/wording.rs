//! What texts, numbers in texts and the names of copies mean.
use vstd::prelude::*;

use crate::export::{candidate, date_and_time, digits_in, filled, CtxModel, FileScope};
use crate::filepath::{last_dot, lemma_last_dot};
use crate::text::{
    all_digits,
    ascii_lower,
    dec,
    dec_int,
    dec_padded,
    digits_value,
    int_value,
    is_digit,
    is_space,
    replaced,
    text_le,
    trim_back,
    trim_front,
    trimmed,
};

verus! {

// ---------------------------------------------------------------------------
// Numbers
// ---------------------------------------------------------------------------

/// A number in decimal reads back; it has no zero in front unless it is zero itself.
pub proof fn law_decimals_read_back(n: nat)
    ensures
        dec(n).len() > 0,
        all_digits(dec(n)),
        digits_value(dec(n)) == n,
        n > 0 ==> dec(n)[0] != '0',
        n == 0 ==> dec(n) == seq!['0'],
    decreases n,
{
    if n >= 10 {
        law_decimals_read_back(n / 10);
        let s = dec(n);
        assert(s.drop_last() =~= dec(n / 10));
        assert forall|i: int| 0 <= i < s.len() implies is_digit(#[trigger] s[i]) by {
            if i < s.len() - 1 {
                assert(is_digit(dec(n / 10)[i]));
            }
        }
    } else {
        assert(dec(n).drop_last() =~= Seq::<char>::empty());
        assert(digits_value(Seq::<char>::empty()) == 0);
    }
}

/// A whole number reads back, with its sign.
pub proof fn law_signed_decimals_read_back(n: int)
    ensures
        int_value(dec_int(n)) == Some(n),
        n < 0 ==> dec_int(n)[0] == '-',
        n >= 0 ==> is_digit(dec_int(n)[0]),
{
    if n < 0 {
        let d = dec((-n) as nat);
        law_decimals_read_back((-n) as nat);
        assert((seq!['-'] + d).skip(1) =~= d);
    } else {
        law_decimals_read_back(n as nat);
        assert(is_digit(dec(n as nat)[0]));
    }
}

proof fn lemma_zeros_in_front(k: nat, s: Seq<char>)
    requires
        all_digits(s),
    ensures
        all_digits(Seq::new(k, |i: int| '0') + s),
        digits_value(Seq::new(k, |i: int| '0') + s) == digits_value(s),
    decreases s.len(), k,
{
    let z = Seq::new(k, |i: int| '0');
    if s.len() > 0 {
        lemma_zeros_in_front(k, s.drop_last());
        assert((z + s).drop_last() =~= z + s.drop_last());
        assert((z + s).last() == s.last());
    } else if k > 0 {
        lemma_zeros_in_front((k - 1) as nat, s);
        assert((z + s).drop_last() =~= Seq::new((k - 1) as nat, |i: int| '0') + s);
        assert((z + s).last() == '0');
    } else {
        assert(z + s =~= s);
    }
}

/// Zeros in front do not change a number; they make it as long as asked, and none are
/// added to a number that is long enough.
pub proof fn law_padded_numbers_keep_their_value(n: nat, width: nat)
    ensures
        digits_value(dec_padded(n, width)) == n,
        all_digits(dec_padded(n, width)),
        dec_padded(n, width).len() >= width,
        dec(n).len() <= width ==> dec_padded(n, width).len() == width,
        dec(n).len() >= width ==> dec_padded(n, width) == dec(n),
{
    law_decimals_read_back(n);
    if dec(n).len() < width {
        lemma_zeros_in_front((width - dec(n).len()) as nat, dec(n));
    }
}

// ---------------------------------------------------------------------------
// Letters and white space
// ---------------------------------------------------------------------------

/// The small letter stands in the alphabet where the capital does; every other character
/// stays as it is.
pub proof fn law_capitals_become_small(s: Seq<char>, i: int)
    requires
        0 <= i < s.len(),
    ensures
        ascii_lower(s).len() == s.len(),
        'A' <= s[i] && s[i] <= 'Z' ==> 'a' <= ascii_lower(s)[i] && ascii_lower(s)[i] <= 'z'
            && ascii_lower(s)[i] as u32 - 'a' as u32 == s[i] as u32 - 'A' as u32,
        !('A' <= s[i] && s[i] <= 'Z') ==> ascii_lower(s)[i] == s[i],
        ascii_lower(ascii_lower(s)) == ascii_lower(s),
{
    assert(ascii_lower(ascii_lower(s)) =~= ascii_lower(s));
}

proof fn lemma_trim_front(s: Seq<char>) -> (k: int)
    ensures
        0 <= k <= s.len(),
        trim_front(s) == s.skip(k),
        forall|i: int| 0 <= i < k ==> is_space(#[trigger] s[i]),
        k < s.len() ==> !is_space(s[k]),
    decreases s.len(),
{
    if s.len() > 0 && is_space(s[0]) {
        let k = lemma_trim_front(s.skip(1));
        assert(s.skip(1).skip(k) =~= s.skip(k + 1));
        assert forall|i: int| 0 <= i < k + 1 implies is_space(#[trigger] s[i]) by {
            if i > 0 {
                assert(s.skip(1)[i - 1] == s[i]);
            }
        }
        k + 1
    } else {
        assert(s.skip(0) =~= s);
        0
    }
}

proof fn lemma_trim_back(s: Seq<char>) -> (k: int)
    ensures
        0 <= k <= s.len(),
        trim_back(s) == s.take(k),
        forall|i: int| k <= i < s.len() ==> is_space(#[trigger] s[i]),
        k > 0 ==> !is_space(s[k - 1]),
    decreases s.len(),
{
    if s.len() > 0 && is_space(s.last()) {
        let k = lemma_trim_back(s.drop_last());
        assert(s.drop_last().take(k) =~= s.take(k));
        assert forall|i: int| k <= i < s.len() implies is_space(#[trigger] s[i]) by {
            if i < s.len() - 1 {
                assert(s.drop_last()[i] == s[i]);
            }
        }
        k
    } else {
        assert(s.take(s.len() as int) =~= s);
        s.len() as int
    }
}

/// A text without the space around it starts and ends with no space; what was left out in
/// front and behind is nothing but space.
pub proof fn law_only_space_around_is_dropped(s: Seq<char>)
    ensures
        exists|a: int, b: int|
            {
                &&& 0 <= a <= b <= s.len()
                &&& #[trigger] s.subrange(a, b) == trimmed(s)
                &&& forall|i: int| 0 <= i < s.len() && (i < a || b <= i) ==> is_space(#[trigger] s[i])
            },
        trimmed(s).len() > 0 ==> !is_space(trimmed(s)[0]) && !is_space(trimmed(s).last()),
        is_space(' ') && is_space('\t') && is_space('\n') && is_space('\r'),
        forall|c: char| '!' <= c && c <= '~' ==> !#[trigger] is_space(c),
{
    let a = lemma_trim_front(s);
    let f = s.skip(a);
    let k = lemma_trim_back(f);
    assert(f.take(k) =~= s.subrange(a, a + k));
    assert forall|i: int| 0 <= i < s.len() && (i < a || a + k <= i) implies is_space(
        #[trigger] s[i],
    ) by {
        if i >= a + k {
            assert(f[i - a] == s[i]);
        }
    }
    if k > 0 {
        assert(f[0] == s[a]);
    }
}

/// Texts are in order by the first character in which they differ; a text comes before
/// those that go on behind it.
pub proof fn law_first_difference_orders(p: Seq<char>, a: Seq<char>, b: Seq<char>)
    requires
        b.len() > 0,
        a.len() > 0 ==> a[0] != b[0],
    ensures
        text_le(p + a, p + b) == (a.len() == 0 || a[0] < b[0]),
        text_le(p + a, p + a),
    decreases p.len(),
{
    if p.len() == 0 {
        assert(p + a =~= a);
        assert(p + b =~= b);
        lemma_text_le_itself(a);
    } else {
        law_first_difference_orders(p.skip(1), a, b);
        assert((p + a).skip(1) =~= p.skip(1) + a);
        assert((p + b).skip(1) =~= p.skip(1) + b);
    }
}

proof fn lemma_text_le_itself(a: Seq<char>)
    ensures
        text_le(a, a),
    decreases a.len(),
{
    if a.len() > 0 {
        lemma_text_le_itself(a.skip(1));
    }
}

// ---------------------------------------------------------------------------
// The names of copies
// ---------------------------------------------------------------------------

/// A word without a brace.
pub open spec fn is_plain(s: Seq<char>) -> bool {
    !s.contains('{')
}

/// Where the pattern starts with a brace, a text without one stays as it is.
pub proof fn lemma_replaced_plain(s: Seq<char>, pat: Seq<char>, with: Seq<char>)
    requires
        is_plain(s),
        pat.len() > 0,
        pat[0] == '{',
    ensures
        replaced(s, pat, with) == s,
    decreases s.len(),
{
    if s.len() >= pat.len() {
        assert(s.contains(s[0]));
        assert(s.take(pat.len() as int)[0] == s[0]);
        assert forall|i: int| 0 <= i < s.skip(1).len() implies #[trigger] s.skip(1)[i] != '{' by {
            assert(s.skip(1)[i] == s[i + 1]);
            assert(s.contains(s[i + 1]));
        }
        lemma_replaced_plain(s.skip(1), pat, with);
        assert(seq![s[0]] + s.skip(1) =~= s);
    }
}

/// Where the pattern starts with a brace, what stands in front of the first brace stays.
proof fn lemma_replaced_behind(pre: Seq<char>, s: Seq<char>, pat: Seq<char>, with: Seq<char>)
    requires
        is_plain(pre),
        pat.len() > 0,
        pat[0] == '{',
    ensures
        replaced(pre + s, pat, with) == pre + replaced(s, pat, with),
    decreases pre.len(),
{
    if pre.len() == 0 {
        assert(pre + s =~= s);
        assert(pre + replaced(s, pat, with) =~= replaced(s, pat, with));
    } else {
        let t = pre + s;
        assert(pre.contains(pre[0]));
        assert(t[0] != '{');
        assert forall|i: int| 0 <= i < pre.skip(1).len() implies #[trigger] pre.skip(1)[i]
            != '{' by {
            assert(pre.contains(pre[i + 1]));
        }
        lemma_replaced_behind(pre.skip(1), s, pat, with);
        assert(t.skip(1) =~= pre.skip(1) + s);
        if t.len() < pat.len() {
            assert(s.len() < pat.len());
        } else {
            assert(t.take(pat.len() as int)[0] == t[0]);
            assert(seq![t[0]] + (pre.skip(1) + replaced(s, pat, with)) =~= pre + replaced(
                s,
                pat,
                with,
            ));
        }
    }
}

/// One variable among plain text is replaced where it is the pattern, and stays where it
/// is another.
proof fn lemma_one_variable(
    pre: Seq<char>,
    var: Seq<char>,
    post: Seq<char>,
    pat: Seq<char>,
    with: Seq<char>,
)
    requires
        is_plain(pre),
        is_plain(post),
        var.len() > 1,
        var[0] == '{',
        var.last() == '}',
        is_plain(var.skip(1)),
        pat.len() > 1,
        pat[0] == '{',
        pat.last() == '}',
        forall|i: int| 0 <= i < pat.len() - 1 ==> #[trigger] pat[i] != '}',
        forall|i: int| 0 <= i < var.len() - 1 ==> #[trigger] var[i] != '}',
    ensures
        var == pat ==> replaced(pre + var + post, pat, with) == pre + with + post,
        var != pat ==> replaced(pre + var + post, pat, with) == pre + var + post,
{
    let s = var + post;
    assert(pre + var + post =~= pre + s);
    lemma_replaced_behind(pre, s, pat, with);
    if var == pat {
        assert(s.take(pat.len() as int) =~= pat);
        assert(s.skip(pat.len() as int) =~= post);
        lemma_replaced_plain(post, pat, with);
        assert(pre + (with + post) =~= pre + with + post);
    } else {
        let rest = s.skip(1);
        assert forall|i: int| 0 <= i < rest.len() implies #[trigger] rest[i] != '{' by {
            if i + 1 < var.len() {
                assert(rest[i] == var.skip(1)[i]);
                assert(var.skip(1).contains(rest[i]));
            } else {
                assert(rest[i] == post[i + 1 - var.len()]);
                assert(post.contains(rest[i]));
            }
        }
        lemma_replaced_plain(rest, pat, with);
        assert(seq![s[0]] + rest =~= s);
        if s.len() >= pat.len() && s.take(pat.len() as int) == pat {
            let h = s.take(pat.len() as int);
            if pat.len() < var.len() {
                assert(h[pat.len() - 1] == var[pat.len() - 1]);
            } else if pat.len() > var.len() {
                assert(h[var.len() - 1] == var[var.len() - 1]);
                assert(pat[var.len() - 1] != '}');
            } else {
                assert(h =~= var);
            }
        }
    }
}

/// A variable of a template.
pub enum Variable {
    Name,
    Ext,
    Date,
    Time,
    Number,
    Stars,
    Camera,
    Shot,
}

impl Variable {
    /// How it is written.
    pub open spec fn text(self) -> Seq<char> {
        match self {
            Variable::Name => "{name}"@,
            Variable::Ext => "{ext}"@,
            Variable::Date => "{date}"@,
            Variable::Time => "{time}"@,
            Variable::Number => "{seq}"@,
            Variable::Stars => "{stars}"@,
            Variable::Camera => "{camera}"@,
            Variable::Shot => "{pair}"@,
        }
    }

    /// What it stands for.
    pub open spec fn value(self, c: CtxModel) -> Seq<char> {
        match self {
            Variable::Name => c.stem,
            Variable::Ext => c.ext,
            Variable::Date => c.date,
            Variable::Time => c.time,
            Variable::Number => dec_padded(c.seq, 4),
            Variable::Stars => dec_int(c.stars),
            Variable::Camera => c.camera,
            Variable::Shot => c.pair,
        }
    }
}

proof fn lemma_variable_form(v: Variable)
    ensures
        v.text().len() > 1,
        v.text()[0] == '{',
        v.text().last() == '}',
        is_plain(v.text().skip(1)),
        forall|i: int| 0 <= i < v.text().len() - 1 ==> #[trigger] v.text()[i] != '}',
{
    reveal_strlit("{name}");
    reveal_strlit("{ext}");
    reveal_strlit("{date}");
    reveal_strlit("{time}");
    reveal_strlit("{seq}");
    reveal_strlit("{stars}");
    reveal_strlit("{camera}");
    reveal_strlit("{pair}");
}

proof fn lemma_variables_differ(a: Variable, b: Variable)
    ensures
        a.text() == b.text() ==> a == b,
{
    reveal_strlit("{name}");
    reveal_strlit("{ext}");
    reveal_strlit("{date}");
    reveal_strlit("{time}");
    reveal_strlit("{seq}");
    reveal_strlit("{stars}");
    reveal_strlit("{camera}");
    reveal_strlit("{pair}");
    assert(a.text() == b.text() ==> a.text()[1] == b.text()[1] && a.text()[2] == b.text()[2]);
}

/// What each step of filling in a template does where one variable stands in it.
proof fn lemma_filled_step(
    pre: Seq<char>,
    v: Variable,
    post: Seq<char>,
    p: Variable,
    c: CtxModel,
)
    requires
        is_plain(pre),
        is_plain(post),
        is_plain(v.value(c)),
    ensures
        v == p ==> replaced(pre + v.text() + post, p.text(), p.value(c)) == pre + v.value(c)
            + post,
        v != p ==> replaced(pre + v.text() + post, p.text(), p.value(c)) == pre + v.text() + post,
        replaced(pre + v.value(c) + post, p.text(), p.value(c)) == pre + v.value(c) + post,
{
    lemma_variable_form(v);
    lemma_variable_form(p);
    lemma_variables_differ(v, p);
    lemma_one_variable(pre, v.text(), post, p.text(), p.value(c));
    let s = pre + v.value(c) + post;
    assert forall|i: int| 0 <= i < s.len() implies #[trigger] s[i] != '{' by {
        if i < pre.len() {
            assert(pre.contains(s[i]));
        } else if i < pre.len() + v.value(c).len() {
            assert(v.value(c)[i - pre.len()] == s[i]);
            assert(v.value(c).contains(s[i]));
        } else {
            assert(post[i - pre.len() - v.value(c).len()] == s[i]);
            assert(post.contains(s[i]));
        }
    }
    lemma_replaced_plain(s, p.text(), p.value(c));
}

/// A variable in a template is filled in with what it stands for, and the text around it
/// stays as it is.
pub proof fn law_variables_are_filled_in(
    pre: Seq<char>,
    v: Variable,
    post: Seq<char>,
    c: CtxModel,
)
    requires
        is_plain(pre),
        is_plain(post),
        is_plain(v.value(c)),
    ensures
        filled(pre + v.text() + post, c) == pre + v.value(c) + post,
{
    lemma_filled_step(pre, v, post, Variable::Name, c);
    lemma_filled_step(pre, v, post, Variable::Ext, c);
    lemma_filled_step(pre, v, post, Variable::Date, c);
    lemma_filled_step(pre, v, post, Variable::Time, c);
    lemma_filled_step(pre, v, post, Variable::Number, c);
    lemma_filled_step(pre, v, post, Variable::Stars, c);
    lemma_filled_step(pre, v, post, Variable::Camera, c);
    lemma_filled_step(pre, v, post, Variable::Shot, c);
}

/// A copy whose name is taken gets the first free number behind its name, in front of its
/// extension; without an extension it comes last.
pub proof fn law_numbers_go_in_front_of_the_extension(stem: Seq<char>, ext: Seq<char>, n: nat)
    requires
        stem.len() > 0,
        !ext.contains('.'),
    ensures
        n > 0 ==> candidate(stem + seq!['.'] + ext, n) == stem + seq!['-'] + dec(n) + seq!['.']
            + ext,
        candidate(stem + seq!['.'] + ext, 0) == stem + seq!['.'] + ext,
        !stem.contains('.') && n > 0 ==> candidate(stem, n) == stem + seq!['-'] + dec(n),
{
    reveal_strlit("-");
    reveal_strlit(".");
    assert("-"@ =~= seq!['-']);
    assert("."@ =~= seq!['.']);
    let name = stem + seq!['.'] + ext;
    lemma_last_dot(name);
    lemma_last_dot(stem);
    assert(name[stem.len() as int] == '.');
    if last_dot(name) > stem.len() {
        let j = last_dot(name) - stem.len() - 1;
        assert(ext[j] == name[last_dot(name)]);
        assert(ext.contains('.'));
    }
    assert(last_dot(name) == stem.len());
    assert(name.take(last_dot(name)) =~= stem);
    assert(name.skip(last_dot(name) + 1) =~= ext);
    if !stem.contains('.') && last_dot(stem) >= 0 {
        assert(stem.contains(stem[last_dot(stem)]));
    }
}

proof fn lemma_digits_in_joined(a: Seq<u8>, b: Seq<u8>)
    ensures
        digits_in(a + b) == digits_in(a) + digits_in(b),
    decreases b.len(),
{
    if b.len() == 0 {
        assert(a + b =~= a);
        assert(digits_in(a) + digits_in(b) =~= digits_in(a));
    } else {
        lemma_digits_in_joined(a, b.drop_last());
        assert((a + b).drop_last() =~= a + b.drop_last());
        assert((a + b).last() == b.last());
        assert(digits_in(a + b) =~= digits_in(a) + digits_in(b));
    }
}

/// The bytes of an ASCII text.
pub open spec fn bytes_of(s: Seq<char>) -> Seq<u8> {
    s.map_values(|c: char| c as u8)
}

proof fn lemma_digits_in_digits(s: Seq<char>)
    requires
        all_digits(s),
    ensures
        digits_in(bytes_of(s)) == s,
    decreases s.len(),
{
    if s.len() == 0 {
        assert(digits_in(bytes_of(s)) =~= s);
    } else {
        assert(is_digit(s.last()));
        assert(bytes_of(s).drop_last() =~= bytes_of(s.drop_last()));
        lemma_digits_in_digits(s.drop_last());
        assert(digits_in(bytes_of(s)) =~= s.drop_last().push(s.last()));
        assert(s.drop_last().push(s.last()) =~= s);
    }
}

/// Two groups of digits with one other character between them.
proof fn lemma_digits_around(a: Seq<char>, mark: char, b: Seq<char>)
    requires
        all_digits(b),
        mark as u32 <= 0x2f || 0x3a <= mark as u32 <= 0x7f,
    ensures
        digits_in(bytes_of(a + seq![mark] + b)) == digits_in(bytes_of(a)) + b,
{
    let m = seq![mark as u8];
    assert(bytes_of(a + seq![mark] + b) =~= bytes_of(a) + m + bytes_of(b));
    lemma_digits_in_joined(bytes_of(a) + m, bytes_of(b));
    lemma_digits_in_joined(bytes_of(a), m);
    lemma_digits_in_digits(b);
    assert(m.drop_last() =~= Seq::<u8>::empty());
    assert(digits_in(Seq::<u8>::empty()) =~= Seq::<char>::empty());
    assert(digits_in(m) =~= Seq::<char>::empty());
    assert(digits_in(bytes_of(a)) + Seq::<char>::empty() =~= digits_in(bytes_of(a)));
}

/// In the names of copies a date is year, month and day, and a time hour, minute and
/// second, each in that order and without the signs between them. A photo without a time
/// has neither.
pub proof fn law_dates_in_names_are_digits(
    year: Seq<char>,
    month: Seq<char>,
    day: Seq<char>,
    hour: Seq<char>,
    minute: Seq<char>,
    second: Seq<char>,
)
    requires
        all_digits(year) && year.len() == 4,
        all_digits(month) && month.len() == 2,
        all_digits(day) && day.len() == 2,
        all_digits(hour) && hour.len() == 2,
        all_digits(minute) && minute.len() == 2,
        all_digits(second) && second.len() == 2,
    ensures
        date_and_time(
            Some(
                year + seq!['-'] + month + seq!['-'] + day + seq![' '] + (hour + seq![':'] + minute
                    + seq![':'] + second),
            ),
        ) == (year + month + day, hour + minute + second),
        date_and_time(None) == (Seq::<char>::empty(), Seq::<char>::empty()),
{
    let date = year + seq!['-'] + month + seq!['-'] + day;
    let time = hour + seq![':'] + minute + seq![':'] + second;
    let s = date + seq![' '] + time;
    assert(date.len() == 10 && time.len() == 8);
    assert forall|i: int| 0 <= i < s.len() implies (#[trigger] s[i]) as u32 <= 0x7f by {
        if i < 4 {
            assert(s[i] == year[i] && is_digit(year[i]));
        } else if 5 <= i < 7 {
            assert(s[i] == month[i - 5] && is_digit(month[i - 5]));
        } else if 8 <= i < 10 {
            assert(s[i] == day[i - 8] && is_digit(day[i - 8]));
        } else if 11 <= i < 13 {
            assert(s[i] == hour[i - 11] && is_digit(hour[i - 11]));
        } else if 14 <= i < 16 {
            assert(s[i] == minute[i - 14] && is_digit(minute[i - 14]));
        } else if 17 <= i {
            assert(s[i] == second[i - 17] && is_digit(second[i - 17]));
        }
    }
    assert(vstd::utf8::is_ascii_chars(s));
    vstd::utf8::is_ascii_chars_encode_utf8(s);
    let b = vstd::utf8::encode_utf8(s);
    assert(b =~= bytes_of(s));
    assert(is_digit(year[0]) && s[0] == year[0]);
    assert(is_digit(second[1]) && s.last() == second[1]);
    assert(trim_front(s) == s);
    assert(trim_back(s) == s);
    assert(b.subrange(0, 10) =~= bytes_of(date));
    assert(b.subrange(11, 19) =~= bytes_of(time));
    lemma_digits_in_digits(year);
    lemma_digits_around(year, '-', month);
    lemma_digits_around(year + seq!['-'] + month, '-', day);
    lemma_digits_in_digits(hour);
    lemma_digits_around(hour, ':', minute);
    lemma_digits_around(hour + seq![':'] + minute, ':', second);
    let none = Seq::<char>::empty();
    assert(trimmed(none) =~= none);
    assert(vstd::utf8::is_ascii_chars(none));
    vstd::utf8::is_ascii_chars_encode_utf8(none);
}

/// The word for a scope chooses the files of that kind and no others; any other word
/// chooses all.
pub proof fn law_scopes_choose_by_kind(word: Seq<char>, kind: Seq<char>)
    ensures
        word == "raw"@ || word == "jpeg"@ ==> FileScope::named(word).takes(kind) == (kind == word),
        word != "raw"@ && word != "jpeg"@ ==> FileScope::named(word).takes(kind),
{
    reveal_strlit("raw");
    reveal_strlit("jpeg");
}

} // verus!
