//! The focus area, read from the AFInfo2 block of Nikon's MakerNote.
//!
//! Plain EXIF has no focus point. Nikon records one in sensor pixels, together
//! with the size of the picture:
//!
//! ```text
//!   0..4     version "0400", "0401" or "0402"
//!   5        focus area mode
//!   7        1 where the coordinates below are valid
//!   62..66   picture width, height
//!   66..70   centre of the area: x, y
//!   70..74   width, height of the area
//! ```
//!
//! The layout is known from real files only, so every reading is checked: an area
//! that does not lie in the picture counts as not read. A frame drawn in the wrong
//! place misleads more than none.
use vstd::prelude::*;

use crate::exif_detail::{exif_field, exif_tag};
use crate::exif_doc::{container_fields, read_doc, DocModel, ExifDoc, ExifValue, ValueModel};
use crate::text::opt_view;

verus! {

/// The tag of the AFInfo2 block in the MakerNote.
pub const TAG_AFINFO2: u16 = 0x00b7;

/// Where the six numbers of the block start.
pub const OFF_IMAGE_W: usize = 62;

/// A focus area in pixels: the centre and the size of the area, and the size of
/// the picture that they belong to.
#[derive(Debug, Clone, Copy, PartialEq, Eq, Structural)]
pub struct AfBox {
    pub image_w: u32,
    pub image_h: u32,
    pub x: u32,
    pub y: u32,
    pub w: u32,
    pub h: u32,
}

impl AfBox {
    /// The centre lies in the picture, and the area is no larger than it.
    pub open spec fn inside(self) -> bool {
        &&& self.x <= self.image_w
        &&& self.y <= self.image_h
        &&& 0 < self.w <= self.image_w
        &&& 0 < self.h <= self.image_h
    }
}

/// The focus area as the picture is shown, and the name of the focus mode where
/// it is known.
#[derive(Debug, Clone)]
pub struct AfArea {
    pub area: AfBox,
    pub mode: Option<String>,
}

// ---------------------------------------------------------------------------
// Reading numbers
// ---------------------------------------------------------------------------

/// The 16-bit number at `o`, in either byte order; 0 where it does not fit.
pub open spec fn num16(b: Seq<u8>, o: int, le: bool) -> nat {
    if o < 0 || o + 2 > b.len() {
        0
    } else if le {
        b[o] as nat + b[o + 1] as nat * 0x100
    } else {
        b[o] as nat * 0x100 + b[o + 1] as nat
    }
}

/// The 32-bit number at `o`, in either byte order; 0 where it does not fit.
pub open spec fn num32(b: Seq<u8>, o: int, le: bool) -> nat {
    if o < 0 || o + 4 > b.len() {
        0
    } else if le {
        b[o] as nat + b[o + 1] as nat * 0x100 + b[o + 2] as nat * 0x1_0000 + b[o + 3] as nat
            * 0x100_0000
    } else {
        b[o] as nat * 0x100_0000 + b[o + 1] as nat * 0x1_0000 + b[o + 2] as nat * 0x100 + b[o
            + 3] as nat
    }
}

pub fn u16at(b: &[u8], o: usize, le: bool) -> (r: u16)
    ensures
        r == num16(b@, o as int, le),
{
    if b.len() < 2 || o > b.len() - 2 {
        return 0;
    }
    if le {
        b[o] as u16 + b[o + 1] as u16 * 0x100
    } else {
        b[o] as u16 * 0x100 + b[o + 1] as u16
    }
}

pub fn u32at(b: &[u8], o: usize, le: bool) -> (r: u32)
    ensures
        r == num32(b@, o as int, le),
{
    if b.len() < 4 || o > b.len() - 4 {
        return 0;
    }
    if le {
        b[o] as u32 + b[o + 1] as u32 * 0x100 + b[o + 2] as u32 * 0x1_0000 + b[o + 3] as u32
            * 0x100_0000
    } else {
        b[o] as u32 * 0x100_0000 + b[o + 1] as u32 * 0x1_0000 + b[o + 2] as u32 * 0x100 + b[o
            + 3] as u32
    }
}

// ---------------------------------------------------------------------------
// The block
// ---------------------------------------------------------------------------

/// The name of a focus area mode.
pub open spec fn mode_name(v: u8) -> Option<Seq<char>> {
    match v {
        192 => Some("微点 AF"@),
        193 => Some("单点 AF"@),
        195 => Some("广域 AF（小）"@),
        196 => Some("广域 AF（大）"@),
        197 => Some("自动区域 AF"@),
        204 => Some("动态区域 AF（小）"@),
        205 => Some("动态区域 AF（中）"@),
        206 => Some("动态区域 AF（大）"@),
        207 => Some("3D 跟踪"@),
        _ => None,
    }
}

fn mode_of(v: u8) -> (r: Option<String>)
    ensures
        opt_view(r) == mode_name(v),
{
    match v {
        192 => Some("微点 AF".to_string()),
        193 => Some("单点 AF".to_string()),
        195 => Some("广域 AF（小）".to_string()),
        196 => Some("广域 AF（大）".to_string()),
        197 => Some("自动区域 AF".to_string()),
        204 => Some("动态区域 AF（小）".to_string()),
        205 => Some("动态区域 AF（中）".to_string()),
        206 => Some("动态区域 AF（大）".to_string()),
        207 => Some("3D 跟踪".to_string()),
        _ => None,
    }
}

/// A version of the block with the known layout: `0400`, `0401` or `0402`.
pub open spec fn known_version(b: Seq<u8>) -> bool {
    b[0] == 0x30 && b[1] == 0x34 && b[2] == 0x30 && 0x30 <= b[3] <= 0x32
}

/// The numbers of the block.
pub open spec fn af_numbers(b: Seq<u8>) -> AfBox {
    AfBox {
        image_w: num16(b, 62, true) as u32,
        image_h: num16(b, 64, true) as u32,
        x: num16(b, 66, true) as u32,
        y: num16(b, 68, true) as u32,
        w: num16(b, 70, true) as u32,
        h: num16(b, 72, true) as u32,
    }
}

/// The focus area in the block, on the sensor. None where the block is too short
/// or of another version, where the camera wrote no coordinates, where the picture
/// would have less than 100 pixels a side, or where the area is empty or not in
/// the picture.
pub open spec fn af_box_in(b: Seq<u8>) -> Option<AfBox> {
    let a = af_numbers(b);
    if b.len() < 74 || !known_version(b) || b[7] != 1 || a.image_w < 100 || a.image_h < 100
        || !a.inside() {
        None
    } else {
        Some(a)
    }
}

/// Reads the AFInfo2 block: the focus area on the sensor, and the name of the
/// mode.
pub fn parse_af_info2(b: &[u8]) -> (r: Option<(AfBox, Option<String>)>)
    ensures
        match af_box_in(b@) {
            None => r is None,
            Some(a) => r is Some && r->Some_0.0 == a && opt_view(r->Some_0.1) == mode_name(
                b@[5],
            ) && a.inside(),
        },
{
    if b.len() < OFF_IMAGE_W + 12 {
        return None;
    }
    if !(b[0] == 0x30 && b[1] == 0x34 && b[2] == 0x30 && 0x30 <= b[3] && b[3] <= 0x32) {
        return None;
    }
    if b[7] != 1 {
        return None;
    }
    let a = AfBox {
        image_w: u16at(b, OFF_IMAGE_W, true) as u32,
        image_h: u16at(b, OFF_IMAGE_W + 2, true) as u32,
        x: u16at(b, OFF_IMAGE_W + 4, true) as u32,
        y: u16at(b, OFF_IMAGE_W + 6, true) as u32,
        w: u16at(b, OFF_IMAGE_W + 8, true) as u32,
        h: u16at(b, OFF_IMAGE_W + 10, true) as u32,
    };
    if a.image_w < 100 || a.image_h < 100 || a.w == 0 || a.h == 0 {
        return None;
    }
    if a.x > a.image_w || a.y > a.image_h || a.w > a.image_w || a.h > a.image_h {
        return None;
    }
    Some((a, mode_of(b[5])))
}

// ---------------------------------------------------------------------------
// Orientation
// ---------------------------------------------------------------------------

/// The area as it is shown: turned by 180 degrees (3), by 90 degrees clockwise (6)
/// or counter-clockwise (8), else as it is.
pub open spec fn turned(a: AfBox, orientation: i64) -> AfBox {
    if orientation == 3 {
        AfBox { x: (a.image_w - a.x) as u32, y: (a.image_h - a.y) as u32, ..a }
    } else if orientation == 6 {
        AfBox {
            image_w: a.image_h,
            image_h: a.image_w,
            x: (a.image_h - a.y) as u32,
            y: a.x,
            w: a.h,
            h: a.w,
        }
    } else if orientation == 8 {
        AfBox {
            image_w: a.image_h,
            image_h: a.image_w,
            x: a.y,
            y: (a.image_w - a.x) as u32,
            w: a.h,
            h: a.w,
        }
    } else {
        a
    }
}

pub fn apply_orientation(a: AfBox, orientation: i64) -> (r: AfBox)
    requires
        a.inside(),
    ensures
        r == turned(a, orientation),
        r.inside(),
{
    if orientation == 3 {
        AfBox { image_w: a.image_w, image_h: a.image_h, x: a.image_w - a.x, y: a.image_h - a.y, w: a.w, h: a.h }
    } else if orientation == 6 {
        AfBox { image_w: a.image_h, image_h: a.image_w, x: a.image_h - a.y, y: a.x, w: a.h, h: a.w }
    } else if orientation == 8 {
        AfBox { image_w: a.image_h, image_h: a.image_w, x: a.y, y: a.image_w - a.x, w: a.h, h: a.w }
    } else {
        a
    }
}

/// The quarter turns 6 and 8 undo each other, and two half turns give back the
/// area.
pub proof fn law_turns_undo_each_other(a: AfBox)
    requires
        a.inside(),
    ensures
        turned(turned(a, 6), 8) == a,
        turned(turned(a, 8), 6) == a,
        turned(turned(a, 3), 3) == a,
        turned(turned(a, 6), 6) == turned(a, 3),
{
}

/// However the picture is turned, the area stays in it and keeps its size; a
/// quarter turn swaps its sides.
pub proof fn law_turned_area_stays_inside(a: AfBox, orientation: i64)
    requires
        a.inside(),
    ensures
        turned(a, orientation).inside(),
        orientation == 6 || orientation == 8 ==> turned(a, orientation).w == a.h && turned(
            a,
            orientation,
        ).h == a.w,
        orientation != 6 && orientation != 8 ==> turned(a, orientation).w == a.w && turned(
            a,
            orientation,
        ).h == a.h,
{
}

// ---------------------------------------------------------------------------
// The MakerNote
// ---------------------------------------------------------------------------

/// The TIFF structure in a Nikon MakerNote: behind `Nikon`, a zero byte and four
/// more bytes.
pub open spec fn tiff_in(mn: Seq<u8>) -> Option<Seq<u8>> {
    if mn.len() < 18 || mn.take(6) != seq![0x4eu8, 0x69u8, 0x6bu8, 0x6fu8, 0x6eu8, 0u8] {
        None
    } else {
        Some(mn.skip(10))
    }
}

pub fn makernote_tiff(mn: &[u8]) -> (r: Option<&[u8]>)
    ensures
        match r {
            Some(t) => tiff_in(mn@) == Some(t@),
            None => tiff_in(mn@) is None,
        },
{
    let n: usize = mn.len();
    if n < 18 {
        return None;
    }
    let nikon = mn[0] == 0x4e && mn[1] == 0x69 && mn[2] == 0x6b && mn[3] == 0x6f && mn[4] == 0x6e
        && mn[5] == 0;
    proof {
        let head = mn@.take(6);
        let want = seq![0x4eu8, 0x69u8, 0x6bu8, 0x6fu8, 0x6eu8, 0u8];
        if nikon {
            assert(head =~= want);
        } else if head == want {
            assert(head[0] == mn@[0] && head[1] == mn@[1] && head[2] == mn@[2] && head[3]
                == mn@[3] && head[4] == mn@[4] && head[5] == mn@[5]);
        }
    }
    if !nikon {
        return None;
    }
    let t = vstd::slice::slice_subrange(mn, 10, n);
    assert(t@ =~= mn@.skip(10));
    Some(t)
}

/// The number of bytes of one item of a TIFF type; 1 for a type that is not known.
pub open spec fn type_size(typ: nat) -> nat {
    if typ == 3 || typ == 8 {
        2
    } else if typ == 4 || typ == 9 || typ == 11 {
        4
    } else if typ == 5 || typ == 10 {
        8
    } else {
        1
    }
}

/// The bytes of the entry at `e`: in the entry itself where they are four at most,
/// else where the entry points.
pub open spec fn entry_bytes(t: Seq<u8>, e: int, le: bool) -> Option<Seq<u8>> {
    let size = num32(t, e + 4, le) * type_size(num16(t, e + 2, le));
    let off = num32(t, e + 8, le) as int;
    if size <= 4 {
        Some(t.subrange(e + 8, e + 8 + size))
    } else if off + size <= t.len() {
        Some(t.subrange(off, off + size))
    } else {
        None
    }
}

/// The bytes of the first of the entries `i..n` that has the tag; the directory
/// starts at `ifd`. Entries behind the end of the data are not there.
pub open spec fn entry_from(t: Seq<u8>, ifd: int, i: int, n: int, want: u16, le: bool) -> Option<
    Seq<u8>,
>
    decreases n - i,
{
    let e = ifd + 2 + i * 12;
    if i >= n || e + 12 > t.len() {
        None
    } else if num16(t, e, le) == want {
        entry_bytes(t, e, le)
    } else {
        entry_from(t, ifd, i + 1, n, want, le)
    }
}

/// The bytes of the field with the tag in the first directory of a TIFF structure.
pub open spec fn tiff_field_bytes(t: Seq<u8>, want: u16, le: bool) -> Option<Seq<u8>> {
    let ifd = num32(t, 4, le) as int;
    entry_from(t, ifd, 0, num16(t, ifd, le) as int, want, le)
}

pub fn mn_field(tiff: &[u8], want: u16, le: bool) -> (r: Option<&[u8]>)
    ensures
        match r {
            Some(b) => tiff_field_bytes(tiff@, want, le) == Some(b@),
            None => tiff_field_bytes(tiff@, want, le) is None,
        },
{
    let ifd: u32 = u32at(tiff, 4, le);
    let n: u16 = u16at(tiff, ifd as usize, le);
    let bytes: usize = tiff.len();
    let len: u64 = bytes as u64;
    let ghost t = tiff@;
    let mut i: u16 = 0;
    while i < n
        invariant
            t == tiff@,
            len == t.len(),
            bytes == t.len(),
            i <= n,
            tiff_field_bytes(t, want, le) == entry_from(
                t,
                ifd as int,
                i as int,
                n as int,
                want,
                le,
            ),
        decreases n - i,
    {
        let at: u64 = ifd as u64 + 2 + i as u64 * 12;
        if at + 12 > len {
            return None;
        }
        let e: usize = at as usize;
        if u16at(tiff, e, le) != want {
            i = i + 1;
            continue ;
        }
        let typ: u16 = u16at(tiff, e + 2, le);
        let cnt: u64 = u32at(tiff, e + 4, le) as u64;
        let size: u64 = if typ == 3 || typ == 8 {
            cnt * 2
        } else if typ == 4 || typ == 9 || typ == 11 {
            cnt * 4
        } else if typ == 5 || typ == 10 {
            cnt * 8
        } else {
            cnt
        };
        if size <= 4 {
            return Some(vstd::slice::slice_subrange(tiff, e + 8, e + 8 + size as usize));
        }
        let off: u64 = u32at(tiff, e + 8, le) as u64;
        if off + size <= len {
            return Some(vstd::slice::slice_subrange(tiff, off as usize, (off + size) as usize));
        }
        return None;
    }
    None
}

/// `b` with the two bytes of each pair swapped; a byte without a partner stays.
pub open spec fn pairs_swapped(b: Seq<u8>) -> Seq<u8> {
    Seq::new(
        b.len(),
        |i: int|
            if i % 2 == 1 {
                b[i - 1]
            } else if i + 1 < b.len() {
                b[i + 1]
            } else {
                b[i]
            },
    )
}

fn swap_pairs(b: &[u8]) -> (r: Vec<u8>)
    ensures
        r@ == pairs_swapped(b@),
{
    let mut out: Vec<u8> = Vec::new();
    let n: usize = b.len();
    for i in 0..n
        invariant
            n == b@.len(),
            out@ == pairs_swapped(b@).take(i as int),
    {
        if i % 2 == 1 {
            out.push(b[i - 1]);
        } else if i < n - 1 {
            out.push(b[i + 1]);
        } else {
            out.push(b[i]);
        }
        assert(out@ =~= pairs_swapped(b@).take(i + 1));
    }
    assert(pairs_swapped(b@).take(n as int) =~= pairs_swapped(b@));
    out
}

/// The AFInfo2 block of a file: in the MakerNote, brought to little-endian order
/// pair by pair where the MakerNote is in the other.
pub open spec fn af_block_in(doc: DocModel) -> Option<Seq<u8>> {
    match doc.get(exif_tag(0x927c)) {
        Some(ValueModel::Undefined(mn)) => match tiff_in(mn) {
            Some(t) => {
                let le = t[0] == 0x49;
                match tiff_field_bytes(t, TAG_AFINFO2, le) {
                    Some(b) => Some(
                        if le {
                            b
                        } else {
                            pairs_swapped(b)
                        },
                    ),
                    None => None,
                }
            },
            None => None,
        },
        _ => None,
    }
}

/// `r` is the focus area of the file as it is shown, and none where the file gives
/// none that can be trusted.
pub open spec fn is_af_area(doc: DocModel, orientation: i64, r: Option<AfArea>) -> bool {
    match af_block_in(doc) {
        None => r is None,
        Some(b) => match af_box_in(b) {
            None => r is None,
            Some(a) => r is Some && r->Some_0.area == turned(a, orientation) && opt_view(
                r->Some_0.mode,
            ) == mode_name(b[5]) && r->Some_0.area.inside(),
        },
    }
}

fn area_of_block(b: &[u8], orientation: i64) -> (r: Option<AfArea>)
    ensures
        match af_box_in(b@) {
            None => r is None,
            Some(a) => r is Some && r->Some_0.area == turned(a, orientation) && opt_view(
                r->Some_0.mode,
            ) == mode_name(b@[5]) && r->Some_0.area.inside(),
        },
{
    match parse_af_info2(b) {
        Some((a, mode)) => Some(AfArea { area: apply_orientation(a, orientation), mode }),
        None => None,
    }
}

/// The focus area among the EXIF fields of a file.
pub fn af_area_in(doc: &ExifDoc, orientation: i64) -> (r: Option<AfArea>)
    ensures
        is_af_area(doc@, orientation, r),
{
    match doc.get(exif_field(0x927c)) {
        Some(ExifValue::Undefined(mn)) => {
            let tiff = match makernote_tiff(mn.as_slice()) {
                Some(t) => t,
                None => return None,
            };
            let le = tiff[0] == 0x49;
            match mn_field(tiff, TAG_AFINFO2, le) {
                Some(b) => if le {
                    area_of_block(b, orientation)
                } else {
                    let swapped = swap_pairs(b);
                    area_of_block(swapped.as_slice(), orientation)
                },
                None => None,
            }
        },
        _ => None,
    }
}

/// The focus area in the content of a file, turned as the picture is shown.
pub fn af_area_of(data: &[u8], orientation: i64) -> (r: Option<AfArea>)
    ensures
        match container_fields(data@) {
            None => r is None,
            Some(fields) => is_af_area(DocModel { fields, version: None }, orientation, r),
        },
{
    match read_doc(data) {
        Ok(doc) => {
            let ghost bare = DocModel { fields: doc@.fields, version: None };
            assert(af_block_in(doc@) == af_block_in(bare));
            af_area_in(&doc, orientation)
        },
        Err(_) => None,
    }
}

} // verus!
