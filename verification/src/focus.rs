//! What the focus data of a file and its numbers mean: written down by their layout, they
//! read back as they were.
use vstd::prelude::*;

use crate::af::{
    af_box_in,
    entry_from,
    num16,
    num32,
    pairs_swapped,
    tiff_in,
    type_size,
    AfBox,
};
use crate::exif_doc::Ratio;
use crate::indexer::is_fraction;

verus! {

/// A number reads back from its bytes, the low byte first or the high byte first.
pub proof fn law_numbers_read_back(before: Seq<u8>, after: Seq<u8>, n: u16, m: u32)
    ensures
        ({
            let at = before.len() as int;
            let low = (n % 256) as u8;
            let high = (n / 256) as u8;
            &&& num16(before + seq![low, high] + after, at, true) == n
            &&& num16(before + seq![high, low] + after, at, false) == n
        }),
        ({
            let at = before.len() as int;
            let a = (m % 256) as u8;
            let b = (m / 256 % 256) as u8;
            let c = (m / 65536 % 256) as u8;
            let d = (m / 16777216) as u8;
            &&& num32(before + seq![a, b, c, d] + after, at, true) == m
            &&& num32(before + seq![d, c, b, a] + after, at, false) == m
        }),
{
    let at = before.len() as int;
    let low = (n % 256) as u8;
    let high = (n / 256) as u8;
    let s = before + seq![low, high] + after;
    let t = before + seq![high, low] + after;
    assert(s[at] == low && s[at + 1] == high);
    assert(t[at] == high && t[at + 1] == low);
    let a = (m % 256) as u8;
    let b = (m / 256 % 256) as u8;
    let c = (m / 65536 % 256) as u8;
    let d = (m / 16777216) as u8;
    let u = before + seq![a, b, c, d] + after;
    let v = before + seq![d, c, b, a] + after;
    assert(u[at] == a && u[at + 1] == b && u[at + 2] == c && u[at + 3] == d);
    assert(v[at] == d && v[at + 1] == c && v[at + 2] == b && v[at + 3] == a);
}

/// A number that does not fit behind the end of the data is 0.
pub proof fn law_numbers_behind_the_end_are_zero(b: Seq<u8>, at: int, le: bool)
    ensures
        at + 2 > b.len() ==> num16(b, at, le) == 0,
        at + 4 > b.len() ==> num32(b, at, le) == 0,
{
}

/// Focus data with the high bytes first is read like that with the low bytes first once
/// the bytes of each pair have changed places, and to swap them twice changes nothing.
pub proof fn law_either_byte_order_gives_the_same_numbers(b: Seq<u8>, at: int)
    ensures
        0 <= at && at % 2 == 0 && at + 2 <= b.len() ==> num16(pairs_swapped(b), at, true) == num16(
            b,
            at,
            false,
        ),
        pairs_swapped(pairs_swapped(b)) == b,
        pairs_swapped(b).len() == b.len(),
{
    assert(pairs_swapped(pairs_swapped(b)) =~= b);
}

/// Six numbers stand in the data one behind the other, the low byte of each first.
pub open spec fn stands_at(b: Seq<u8>, at: int, numbers: Seq<int>) -> bool {
    &&& at + 2 * numbers.len() <= b.len()
    &&& forall|k: int|
        0 <= k < numbers.len() ==> b[at + 2 * k] + 256 * b[at + 2 * k + 1] == #[trigger] numbers[k]
}

/// A focus block reads back: behind its version (`04` and one of `00`, `01`, `02`) and the
/// sign that the camera wrote coordinates, the size of the picture, the centre of the area
/// and the size of the area, each horizontal before vertical.
pub proof fn law_focus_blocks_read_back(b: Seq<u8>, a: AfBox, version: char)
    requires
        b.len() >= 74,
        version == '0' || version == '1' || version == '2',
        b.take(4) == seq!['0' as u8, '4' as u8, '0' as u8, version as u8],
        b[7] == 1,
        stands_at(
            b,
            62,
            seq![
                a.image_w as int,
                a.image_h as int,
                a.x as int,
                a.y as int,
                a.w as int,
                a.h as int,
            ],
        ),
    ensures
        af_box_in(b) == (if a.image_w >= 100 && a.image_h >= 100 && a.x <= a.image_w && a.y
            <= a.image_h && 1 <= a.w <= a.image_w && 1 <= a.h <= a.image_h {
            Some(a)
        } else {
            None
        }),
        forall|c: Seq<u8>|
            c.len() == b.len() && (forall|i: int|
                4 <= i < c.len() && i != 7 ==> #[trigger] c[i] == b[i]) && af_box_in(c) is Some
                ==> #[trigger] af_box_in(c) == Some(a),
{
    let n = seq![
        a.image_w as int,
        a.image_h as int,
        a.x as int,
        a.y as int,
        a.w as int,
        a.h as int,
    ];
    assert(b[62] + 256 * b[63] == n[0]);
    assert(b[64] + 256 * b[65] == n[1]);
    assert(b[66] + 256 * b[67] == n[2]);
    assert(b[68] + 256 * b[69] == n[3]);
    assert(b[70] + 256 * b[71] == n[4]);
    assert(b[72] + 256 * b[73] == n[5]);
    let v = b.take(4);
    assert(v[0] == b[0] && v[1] == b[1] && v[2] == b[2] && v[3] == b[3]);
    assert('0' as u8 == 0x30 && '1' as u8 == 0x31 && '2' as u8 == 0x32 && '4' as u8 == 0x34);
}

/// Nothing is read from a focus block that is too short, or of another version, or in
/// which the camera wrote no coordinates.
pub proof fn law_other_focus_blocks_are_not_read(b: Seq<u8>)
    ensures
        b.len() < 74 ==> af_box_in(b) is None,
        b.len() >= 74 && b[7] != 1 ==> af_box_in(b) is None,
        b.len() >= 74 && (b[0] != '0' as u8 || b[1] != '4' as u8 || b[2] != '0' as u8 || b[3]
            < '0' as u8 || b[3] > '2' as u8) ==> af_box_in(b) is None,
{
    assert('0' as u8 == 0x30 && '2' as u8 == 0x32 && '4' as u8 == 0x34);
}

/// A kind of value in a TIFF structure.
pub enum TiffKind {
    Byte,
    Ascii,
    Short,
    Long,
    Rational,
    SignedByte,
    Undefined,
    SignedShort,
    SignedLong,
    SignedRational,
    Float,
}

impl TiffKind {
    /// The number by which the kind is told.
    pub open spec fn code(self) -> nat {
        match self {
            TiffKind::Byte => 1,
            TiffKind::Ascii => 2,
            TiffKind::Short => 3,
            TiffKind::Long => 4,
            TiffKind::Rational => 5,
            TiffKind::SignedByte => 6,
            TiffKind::Undefined => 7,
            TiffKind::SignedShort => 8,
            TiffKind::SignedLong => 9,
            TiffKind::SignedRational => 10,
            TiffKind::Float => 11,
        }
    }

    /// The bits of one value.
    pub open spec fn bits(self) -> nat {
        match self {
            TiffKind::Byte | TiffKind::Ascii | TiffKind::SignedByte | TiffKind::Undefined => 8,
            TiffKind::Short | TiffKind::SignedShort => 16,
            TiffKind::Long | TiffKind::SignedLong | TiffKind::Float => 32,
            // Two numbers of 32 bits: one over the other.
            TiffKind::Rational | TiffKind::SignedRational => 64,
        }
    }
}

/// Each kind of value takes as many bytes as its bits need.
pub proof fn law_values_take_their_bytes(k: TiffKind)
    ensures
        type_size(k.code()) * 8 == k.bits(),
{
}

/// The entry with a tag is found behind those with other tags. Its bytes stand in the
/// entry itself where four have room for them, else where the entry points.
pub proof fn law_entries_are_found(
    t: Seq<u8>,
    ifd: int,
    i: int,
    n: int,
    at: int,
    want: u16,
    le: bool,
)
    requires
        0 <= ifd,
        0 <= i <= at < n,
        ifd + 2 + at * 12 + 12 <= t.len(),
        num16(t, ifd + 2 + at * 12, le) == want,
        forall|k: int| i <= k < at ==> num16(t, ifd + 2 + #[trigger] (k * 12), le) != want,
    ensures
        ({
            let e = ifd + 2 + at * 12;
            let bytes = num32(t, e + 4, le) * type_size(num16(t, e + 2, le));
            let place = num32(t, e + 8, le) as int;
            &&& bytes <= 4 ==> entry_from(t, ifd, i, n, want, le) == Some(
                t.skip(e + 8).take(bytes as int),
            )
            &&& bytes > 4 && place + bytes <= t.len() ==> entry_from(t, ifd, i, n, want, le)
                == Some(t.skip(place).take(bytes as int))
            &&& bytes > 4 && place + bytes > t.len() ==> entry_from(t, ifd, i, n, want, le) is None
        }),
    decreases at - i,
{
    let e = ifd + 2 + at * 12;
    let bytes = num32(t, e + 4, le) * type_size(num16(t, e + 2, le));
    let place = num32(t, e + 8, le) as int;
    if i < at {
        assert(num16(t, ifd + 2 + (i * 12), le) != want);
        law_entries_are_found(t, ifd, i + 1, n, at, want, le);
    } else {
        if bytes <= 4 {
            assert(t.skip(e + 8).take(bytes as int) =~= t.subrange(e + 8, e + 8 + bytes));
        } else if place + bytes <= t.len() {
            assert(t.skip(place).take(bytes as int) =~= t.subrange(place, place + bytes));
        }
    }
}

/// The focus data of a Nikon camera starts with the name of the maker and a zero byte;
/// ten bytes in, the TIFF structure follows. Other data is not read.
pub proof fn law_only_nikon_notes_are_read(note: Seq<u8>)
    ensures
        tiff_in(note) is Some <==> note.len() >= 18 && note[0] == 'N' as u8 && note[1]
            == 'i' as u8 && note[2] == 'k' as u8 && note[3] == 'o' as u8 && note[4] == 'n' as u8
            && note[5] == 0,
        tiff_in(note) matches Some(t) ==> t.len() + 10 == note.len() && forall|k: int|
            0 <= k < t.len() ==> #[trigger] t[k] == note[k + 10],
{
    assert('N' as u8 == 0x4e && 'i' as u8 == 0x69 && 'k' as u8 == 0x6b && 'o' as u8 == 0x6f
        && 'n' as u8 == 0x6e);
    let head = note.take(6);
    let want = seq![0x4eu8, 0x69u8, 0x6bu8, 0x6fu8, 0x6eu8, 0u8];
    if note.len() >= 18 {
        assert(head[0] == note[0] && head[1] == note[1] && head[2] == note[2] && head[3] == note[3]
            && head[4] == note[4] && head[5] == note[5]);
        if head[0] == want[0] && head[1] == want[1] && head[2] == want[2] && head[3] == want[3]
            && head[4] == want[4] && head[5] == want[5] {
            assert(head =~= want);
        }
    }
}

// ---------------------------------------------------------------------------
// Quotients
// ---------------------------------------------------------------------------

/// A quotient of whole numbers is judged by its value: it is positive where both numbers
/// have the same sign, no fraction of one is as large as one, and none that is close to
/// zero is a whole one. The form in which it is stored makes no difference.
pub proof fn law_quotients_are_judged_by_value(n: int, d: int, k: int)
    requires
        0 <= n <= i32::MAX,
        0 < d <= i32::MAX,
        1 <= k,
        k * n <= i32::MAX,
        k * d <= i32::MAX,
    ensures
        ({
            let q = Ratio::Unsigned(n as u32, d as u32);
            let s = Ratio::Signed(n as i32, d as i32);
            let m = Ratio::Signed((-n) as i32, (-d) as i32);
            let minus = Ratio::Signed((-n) as i32, d as i32);
            let more = Ratio::Unsigned((k * n) as u32, (k * d) as u32);
            &&& q.positive() == (n > 0)
            &&& s.positive() == q.positive()
            &&& m.positive() == q.positive()
            &&& !minus.positive()
            &&& q.near_zero() == (n * 1_000_000_000 < d)
            &&& s.near_zero() == q.near_zero()
            &&& m.near_zero() == q.near_zero()
            &&& minus.near_zero() == q.near_zero()
            &&& is_fraction(q) == (0 < n < d)
            &&& is_fraction(s) == is_fraction(q)
            &&& is_fraction(m) == is_fraction(q)
            &&& !is_fraction(minus)
            &&& more.positive() == q.positive()
            &&& is_fraction(more) == is_fraction(q)
            &&& more.near_zero() == q.near_zero()
        }),
        // Over zero a quotient is infinite, on the side of the number above.
        Ratio::Unsigned(n as u32, 0).positive() == (n > 0),
        Ratio::Signed(n as i32, 0).positive() == (n > 0),
        !Ratio::Signed((-n) as i32, 0).positive(),
        !is_fraction(Ratio::Unsigned(n as u32, 0)),
        !is_fraction(Ratio::Signed(n as i32, 0)),
        !Ratio::Unsigned(n as u32, 0).near_zero(),
        !Ratio::Signed(n as i32, 0).near_zero(),
{
    assert(0 <= k * n && 0 < k * d && (k * n > 0 <==> n > 0)) by (nonlinear_arith)
        requires
            1 <= k,
            0 <= n,
            0 < d,
    ;
    assert(k * n < k * d <==> n < d) by (nonlinear_arith)
        requires
            1 <= k,
    ;
    let big = n * 1_000_000_000;
    assert(k * big == (k * n) * 1_000_000_000) by (nonlinear_arith)
        requires
            big == n * 1_000_000_000,
    ;
    assert(k * big < k * d <==> big < d) by (nonlinear_arith)
        requires
            1 <= k,
    ;
}

} // verus!
