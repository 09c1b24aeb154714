//! The frame headers of a JPEG file, as far as decoding depends on them.
//!
//! A frame header says how finely each colour component of the picture is sampled.
//! The decoder takes it for granted that no component is sampled more finely than the
//! first, and in progressive pictures that the number of components agrees with the
//! colour space. A file that breaks this is taken for one that cannot be decoded.
use vstd::prelude::*;

use crate::preview::be16;

verus! {

/// A marker stands at `i`: a byte FF and one that is neither 00 nor FF.
pub open spec fn is_marker(d: Seq<u8>, i: int) -> bool {
    0 <= i && i + 1 < d.len() && d[i] == 0xff && d[i + 1] != 0x00 && d[i + 1] != 0xff
}

/// The first marker from `i` on.
pub open spec fn next_marker(d: Seq<u8>, i: int) -> Option<int>
    decreases d.len() - i,
{
    if i < 0 || i + 1 >= d.len() {
        None
    } else if is_marker(d, i) {
        Some(i)
    } else {
        next_marker(d, i + 1)
    }
}

/// The marker of a frame header, for a way of coding that is decoded.
pub open spec fn is_frame(m: u8) -> bool {
    m == 0xc0 || m == 0xc1 || m == 0xc2
}

/// The length of the segment whose marker stands at `p`; none where it is cut off or
/// too short for its own length.
pub open spec fn segment_len(d: Seq<u8>, p: int) -> Option<nat> {
    if p + 4 > d.len() || be16(d[p + 2], d[p + 3]) < 2 {
        None
    } else if d[p + 1] == 0xe0 && be16(d[p + 2], d[p + 3]) == 6 {
        // Five bytes are read of this segment even where it says that it has four.
        Some(7)
    } else {
        Some(be16(d[p + 2], d[p + 3]))
    }
}

/// Where the frame headers stand from `i` on, up to the first scan.
pub open spec fn frames(d: Seq<u8>, i: int) -> Seq<int>
    decreases d.len() - i,
    when 0 <= i
    via frames_decreases
{
    match next_marker(d, i) {
        Some(p) => if d[p + 1] == 0xda {
            Seq::empty()
        } else {
            match segment_len(d, p) {
                Some(n) => {
                    let rest = if p + 2 + n <= d.len() {
                        frames(d, p + 2 + n)
                    } else {
                        Seq::empty()
                    };
                    if is_frame(d[p + 1]) {
                        seq![p] + rest
                    } else {
                        rest
                    }
                },
                None => Seq::empty(),
            }
        },
        None => Seq::empty(),
    }
}

#[via_fn]
proof fn frames_decreases(d: Seq<u8>, i: int) {
    lemma_next_marker(d, i);
}

proof fn lemma_next_marker(d: Seq<u8>, i: int)
    requires
        0 <= i,
    ensures
        next_marker(d, i) matches Some(p) ==> i <= p && is_marker(d, p),
    decreases d.len() - i,
{
    if i + 1 < d.len() && !is_marker(d, i) {
        lemma_next_marker(d, i + 1);
    }
}

/// The sampling factors of component `k` of the frame header at `p`, as they are
/// stored: the horizontal one in the high bits.
pub open spec fn factors_at(p: int, k: int) -> int {
    p + 11 + 3 * k
}

/// No component of the frame header at `p` is sampled more finely than the first.
pub open spec fn is_finest_first(d: Seq<u8>, p: int) -> bool {
    forall|k: int|
        0 <= k && p + 9 < d.len() && k < d[p + 9] && #[trigger] factors_at(p, k) < d.len()
            ==> d[factors_at(p, k)] / 16 <= d[p + 11] / 16 && d[factors_at(p, k)] % 16 <= d[p + 11]
            % 16
}

/// The marker of a segment that can change the colour space stands at `i`.
pub open spec fn is_color_marker(d: Seq<u8>, i: int) -> bool {
    0 <= i && i + 1 < d.len() && d[i] == 0xff && d[i + 1] == 0xee
}

/// In the progressive picture whose frame header stands at `p`, the colour space
/// cannot come to disagree with the number of components: there are three, or no
/// segment that changes it follows; and with two components there is none at all.
pub open spec fn keeps_color_space(d: Seq<u8>, p: int) -> bool {
    d[p + 1] == 0xc2 && p + 9 < d.len() && d[p + 9] != 3 ==> forall|q: int|
        (d[p + 9] == 2 || p < q) ==> !#[trigger] is_color_marker(d, q)
}

/// The content of a JPEG file can be handed to the decoder.
pub open spec fn can_be_decoded(d: Seq<u8>) -> bool {
    forall|j: int|
        0 <= j < frames(d, 2).len() ==> is_finest_first(d, #[trigger] frames(d, 2)[j])
            && keeps_color_space(d, frames(d, 2)[j])
}

fn finest_first(data: &[u8], p: usize) -> (r: bool)
    requires
        p + 4 <= data@.len(),
    ensures
        r == is_finest_first(data@, p as int),
{
    let len: usize = data.len();
    if len - p <= 11 {
        proof {
            assert forall|k: int| 0 <= k implies #[trigger] factors_at(p as int, k) >= len by {}
        }
        return true;
    }
    let n: usize = data[p + 9] as usize;
    let first: u8 = data[p + 11];
    for k in 0..n
        invariant
            len == data@.len(),
            p + 11 < len,
            n == data@[p + 9],
            first == data@[p + 11],
            forall|j: int|
                0 <= j < k && #[trigger] factors_at(p as int, j) < len ==> data@[factors_at(
                    p as int,
                    j,
                )] / 16 <= first / 16 && data@[factors_at(p as int, j)] % 16 <= first % 16,
    {
        if 3 * k >= len - p - 11 {
            assert forall|j: int| k <= j implies #[trigger] factors_at(p as int, j) >= len by {}
            return true;
        }
        let f: u8 = data[p + 11 + 3 * k];
        if f / 16 > first / 16 || f % 16 > first % 16 {
            assert(factors_at(p as int, k as int) < len);
            return false;
        }
    }
    true
}

/// Whether a segment that can change the colour space starts at `from` or later.
fn has_color_marker(data: &[u8], from: usize) -> (r: bool)
    ensures
        r == exists|q: int| from <= q && #[trigger] is_color_marker(data@, q),
{
    let len: usize = data.len();
    let mut i: usize = from;
    while i < len && len - i > 1
        invariant
            len == data@.len(),
            from <= i,
            forall|q: int| from <= q < i ==> !#[trigger] is_color_marker(data@, q),
        decreases len - i,
    {
        if data[i] == 0xff && data[i + 1] == 0xee {
            assert(is_color_marker(data@, i as int));
            return true;
        }
        i = i + 1;
    }
    false
}

fn color_space_kept(data: &[u8], p: usize) -> (r: bool)
    requires
        p + 4 <= data@.len(),
    ensures
        r == keeps_color_space(data@, p as int),
{
    let len: usize = data.len();
    if data[p + 1] != 0xc2 || len - p <= 9 || data[p + 9] == 3 {
        return true;
    }
    if data[p + 9] == 2 {
        !has_color_marker(data, 0)
    } else {
        !has_color_marker(data, p + 1)
    }
}

/// Whether the content of a JPEG file can be handed to the decoder.
pub fn can_decode(data: &[u8]) -> (r: bool)
    ensures
        r == can_be_decoded(data@),
{
    let len: usize = data.len();
    let ghost d = data@;
    let ghost mut seen: Seq<int> = Seq::empty();
    let mut i: usize = 2;
    proof {
        assert(seen + frames(d, 2) =~= frames(d, 2));
    }
    while i < len && len - i > 1
        invariant
            d == data@,
            len == d.len(),
            2 <= i,
            frames(d, 2) == seen + frames(d, i as int),
            forall|j: int|
                0 <= j < seen.len() ==> is_finest_first(d, #[trigger] seen[j])
                    && keeps_color_space(d, seen[j]),
        ensures
            frames(d, i as int) == Seq::<int>::empty(),
        decreases len - i,
    {
        if data[i] != 0xff || data[i + 1] == 0x00 || data[i + 1] == 0xff {
            i = i + 1;
            continue ;
        }
        assert(next_marker(d, i as int) == Some(i as int));
        let m: u8 = data[i + 1];
        if m == 0xda || len - i < 4 {
            break ;
        }
        let mut n: usize = data[i + 2] as usize * 256 + data[i + 3] as usize;
        if n < 2 {
            break ;
        }
        if m == 0xe0 && n == 6 {
            n = 7;
        }
        if m == 0xc0 || m == 0xc1 || m == 0xc2 {
            let fits = finest_first(data, i) && color_space_kept(data, i);
            proof {
                let rest = if i + 2 + n <= len {
                    frames(d, i + 2 + n)
                } else {
                    Seq::empty()
                };
                assert(seen + (seq![i as int] + rest) =~= seen.push(i as int) + rest);
                assert(frames(d, 2)[seen.len() as int] == i);
                seen = seen.push(i as int);
            }
            if !fits {
                return false;
            }
        }
        if len - i - 2 < n {
            i = len;
            break ;
        }
        i = i + 2 + n;
    }
    proof {
        assert(frames(d, 2) =~= seen);
    }
    true
}

} // verus!
