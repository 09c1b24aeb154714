//! What scaled, framed and embedded pictures show.
use vstd::prelude::*;

use crate::blink::{count_of, large_enough, picture_in, picture_to_see, EyeOutcome};
use crate::frame::is_frame;
use crate::picture::{
    block_end,
    block_mean,
    block_start,
    block_sum,
    channel,
    framed,
    in_square,
    placeholder_color,
    row_sum,
    shrunk,
    Rgb,
    RgbBuf,
};
use crate::preview::{
    after_fill,
    entropy_end,
    frame_dims,
    is_bare,
    is_rst,
    is_sof,
    len_at,
    preview_route,
    suffices,
    usable,
    walk,
    JpegSpan,
};
use crate::thumb::{sizes_of, SIZE_GRID, SIZE_LOUPE, SIZE_MICRO, SIZE_PREVIEW};

verus! {

// ---------------------------------------------------------------------------
// Shrinking
// ---------------------------------------------------------------------------

/// Every pixel of a block has the colour `p`.
pub open spec fn is_flat(b: RgbBuf, x0: int, x1: int, y0: int, y1: int, p: Rgb) -> bool {
    forall|x: int, y: int| x0 <= x < x1 && y0 <= y < y1 ==> #[trigger] b.at(x, y) == p
}

proof fn lemma_flat_row(b: RgbBuf, c: int, y: int, x0: int, x1: int, p: Rgb)
    requires
        x0 <= x1,
        is_flat(b, x0, x1, y, y + 1, p),
    ensures
        row_sum(b, c, y, x0, x1) == (x1 - x0) * channel(p, c),
    decreases x1 - x0,
{
    if x0 < x1 {
        lemma_flat_row(b, c, y, x0, x1 - 1, p);
        assert(b.at(x1 - 1, y) == p);
        let k = channel(p, c) as int;
        assert((x1 - 1 - x0) * k + k == (x1 - x0) * k) by (nonlinear_arith);
    } else {
        assert(0 * channel(p, c) == 0);
    }
}

proof fn lemma_flat_block(b: RgbBuf, c: int, x0: int, x1: int, y0: int, y1: int, p: Rgb)
    requires
        x0 <= x1,
        y0 <= y1,
        is_flat(b, x0, x1, y0, y1, p),
    ensures
        block_sum(b, c, x0, x1, y0, y1) == (x1 - x0) * (y1 - y0) * channel(p, c),
    decreases y1 - y0,
{
    let w = x1 - x0;
    let k = channel(p, c) as int;
    if y0 < y1 {
        lemma_flat_block(b, c, x0, x1, y0, y1 - 1, p);
        lemma_flat_row(b, c, y1 - 1, x0, x1, p);
        assert(w * (y1 - 1 - y0) * k + w * k == w * (y1 - y0) * k) by (nonlinear_arith);
    } else {
        assert(w * 0 * k == 0) by (nonlinear_arith);
    }
}

/// Where all that a pixel of the smaller picture covers has one colour, the pixel has
/// that colour.
pub proof fn law_flat_parts_keep_their_color(b: RgbBuf, nw: int, nh: int, x: int, y: int, p: Rgb)
    requires
        b.width > 0,
        b.height > 0,
        0 <= x < nw,
        0 <= y < nh,
        is_flat(
            b,
            block_start(x, b.width as int, nw),
            block_end(x, b.width as int, nw),
            block_start(y, b.height as int, nh),
            block_end(y, b.height as int, nh),
            p,
        ),
    ensures
        shrunk(b, nw, nh, x, y) == p,
{
    let x0 = block_start(x, b.width as int, nw);
    let x1 = block_end(x, b.width as int, nw);
    let y0 = block_start(y, b.height as int, nh);
    let y1 = block_end(y, b.height as int, nh);
    let n = (x1 - x0) * (y1 - y0);
    assert(n > 0) by (nonlinear_arith)
        requires
            x1 > x0,
            y1 > y0,
            n == (x1 - x0) * (y1 - y0),
    ;
    lemma_flat_block(b, 0, x0, x1, y0, y1, p);
    lemma_flat_block(b, 1, x0, x1, y0, y1, p);
    lemma_flat_block(b, 2, x0, x1, y0, y1, p);
    assert(n * (p.r as int) / n == p.r) by (nonlinear_arith)
        requires
            n > 0,
    ;
    assert(n * (p.g as int) / n == p.g) by (nonlinear_arith)
        requires
            n > 0,
    ;
    assert(n * (p.b as int) / n == p.b) by (nonlinear_arith)
        requires
            n > 0,
    ;
}

proof fn lemma_row_bound(b: RgbBuf, c: int, y: int, x0: int, x1: int)
    requires
        x0 <= x1,
    ensures
        row_sum(b, c, y, x0, x1) <= (x1 - x0) * 255,
    decreases x1 - x0,
{
    if x0 < x1 {
        lemma_row_bound(b, c, y, x0, x1 - 1);
    }
}

proof fn lemma_block_bound(b: RgbBuf, c: int, x0: int, x1: int, y0: int, y1: int)
    requires
        x0 <= x1,
        y0 <= y1,
    ensures
        block_sum(b, c, x0, x1, y0, y1) <= (x1 - x0) * (y1 - y0) * 255,
    decreases y1 - y0,
{
    let w = x1 - x0;
    if y0 < y1 {
        lemma_block_bound(b, c, x0, x1, y0, y1 - 1);
        lemma_row_bound(b, c, y1 - 1, x0, x1);
        assert(w * (y1 - 1 - y0) * 255 + w * 255 == w * (y1 - y0) * 255) by (nonlinear_arith);
    } else {
        assert(w * 0 * 255 == 0) by (nonlinear_arith);
    }
}

proof fn lemma_mean(sum: nat, n: int)
    requires
        n > 0,
        sum <= n * 255,
    ensures
        0 <= sum as int / n <= 255,
        (sum as int / n) * n <= sum,
        sum < (sum as int / n + 1) * n,
{
    let m = sum as int / n;
    assert(0 <= m <= 255 && m * n <= sum && sum < (m + 1) * n) by (nonlinear_arith)
        requires
            n > 0,
            0 <= sum <= n * 255,
            m == sum as int / n,
    ;
}

/// The mean of a block is that of each channel by itself, rounded down: as many times as
/// the block has pixels it is no more than their sum, and one step more would be.
pub proof fn law_means_are_rounded_down(b: RgbBuf, x0: int, x1: int, y0: int, y1: int)
    requires
        x0 < x1,
        y0 < y1,
    ensures
        ({
            let n = (x1 - x0) * (y1 - y0);
            let m = block_mean(b, x0, x1, y0, y1);
            &&& m.r * n <= block_sum(b, 0, x0, x1, y0, y1) < (m.r + 1) * n
            &&& m.g * n <= block_sum(b, 1, x0, x1, y0, y1) < (m.g + 1) * n
            &&& m.b * n <= block_sum(b, 2, x0, x1, y0, y1) < (m.b + 1) * n
        }),
{
    let n = (x1 - x0) * (y1 - y0);
    assert(n > 0) by (nonlinear_arith)
        requires
            x1 > x0,
            y1 > y0,
            n == (x1 - x0) * (y1 - y0),
    ;
    lemma_block_bound(b, 0, x0, x1, y0, y1);
    lemma_block_bound(b, 1, x0, x1, y0, y1);
    lemma_block_bound(b, 2, x0, x1, y0, y1);
    lemma_mean(block_sum(b, 0, x0, x1, y0, y1), n);
    lemma_mean(block_sum(b, 1, x0, x1, y0, y1), n);
    lemma_mean(block_sum(b, 2, x0, x1, y0, y1), n);
}

// ---------------------------------------------------------------------------
// Framing
// ---------------------------------------------------------------------------

/// A framed picture stands in the middle of its square, pixel for pixel: the margins on
/// its two sides differ by one pixel at most, and are black.
pub proof fn law_framed_pictures_are_in_the_middle(
    b: RgbBuf,
    size: int,
    left: int,
    top: int,
    x: int,
    y: int,
)
    requires
        0 <= size - b.width - left - left <= 1,
        0 <= size - b.height - top - top <= 1,
    ensures
        0 <= x < b.width && 0 <= y < b.height ==> framed(b, size, left + x, top + y) == b.at(x, y),
        !(0 <= x < b.width && 0 <= y < b.height) ==> framed(b, size, left + x, top + y) == (Rgb {
            r: 0,
            g: 0,
            b: 0,
        }),
{
    assert(left == (size - b.width) / 2);
    assert(top == (size - b.height) / 2);
}

/// The stand-in is striped: outside its mark the colour changes along no falling
/// diagonal, and changes from light to dark every 32 pixels to the right. The mark is
/// lighter than both.
pub proof fn law_stand_ins_are_striped(w: int, h: int, x: int, y: int)
    requires
        0 <= x,
        0 <= y,
    ensures
        !in_square(w, h, x, y + 1) && !in_square(w, h, x + 1, y) ==> placeholder_color(
            w,
            h,
            x,
            y + 1,
        ) == placeholder_color(w, h, x + 1, y),
        !in_square(w, h, x, y) && !in_square(w, h, x + 32, y) ==> placeholder_color(w, h, x, y)
            != placeholder_color(w, h, x + 32, y),
        !in_square(w, h, x, y) && x + y < 32 ==> placeholder_color(w, h, x, y).r > 40,
        in_square(w, h, x, y) ==> placeholder_color(w, h, x, y).r > 100,
        !in_square(w, h, x, y) ==> placeholder_color(w, h, x, y).r < 50,
{
}

/// The mark of the stand-in is a square with a diagonal in its middle: its four corners
/// belong to it, and so do its sides; in pictures that are not too narrow nothing beside it
/// or above it does.
pub proof fn law_marks_stand_in_the_middle(w: int, h: int, x: int, y: int)
    requires
        w >= 16,
        h >= 16,
    ensures
        ({
            let short = if w < h {
                w
            } else {
                h
            };
            let side = short / 4;
            let left = w / 2 - side / 2;
            let top = h / 2 - side / 2;
            &&& in_square(w, h, left, top)
            &&& in_square(w, h, left + side - 1, top)
            &&& in_square(w, h, left, top + side - 1)
            &&& in_square(w, h, left + side - 1, top + side - 1)
            &&& 0 <= x < side ==> in_square(w, h, left + x, top + x)
            &&& 0 <= x < side ==> in_square(w, h, left + x, top)
            &&& 0 <= x < side ==> in_square(w, h, left, top + x)
            &&& 0 <= x < side ==> in_square(w, h, left + x, top + side - 1)
            &&& 0 <= x < side ==> in_square(w, h, left + side - 1, top + x)
            &&& w < 128 * side && (x < left || x >= left + side || y < top) ==> !in_square(
                w,
                h,
                x,
                y,
            )
        }),
{
}

// ---------------------------------------------------------------------------
// Embedded pictures
// ---------------------------------------------------------------------------

/// The size of a picture reads back from its frame header: behind the length and the
/// precision, the height and the width, the high byte of each first.
pub proof fn law_sizes_read_back(d: Seq<u8>, i: int, w: u16, h: u16, dims: (nat, nat))
    requires
        0 <= i,
        i + 7 <= d.len(),
        d[i + 3] * 256 + d[i + 4] == h,
        d[i + 5] * 256 + d[i + 6] == w,
    ensures
        w > 0 && h > 0 ==> frame_dims(d, i, dims) == (w as nat, h as nat),
        w == 0 || h == 0 ==> frame_dims(d, i, dims) == dims,
{
}

/// The markers from C0 to CF are frame headers, but for those of the Huffman tables (C4),
/// the extensions (C8) and the arithmetic conditioning (CC). The three ways of coding that
/// are decoded are the first three, and no frame header stands without a length.
pub proof fn law_frame_markers(m: u8)
    ensures
        is_sof(m) <==> m / 16 == 12 && !(m % 16 == 4 || m % 16 == 8 || m % 16 == 12),
        is_frame(m) <==> is_sof(m) && m % 16 < 3,
        is_sof(m) ==> !is_bare(m),
        is_rst(m) <==> m / 16 == 13 && m % 16 < 8,
        is_bare(m) <==> m == 1 || is_rst(m),
{
}

/// Coded data goes on over every byte but an FF that starts a marker: behind an FF in it
/// stands a zero or a restart marker.
pub proof fn law_coded_data_ends_at_a_marker(d: Seq<u8>, i: int)
    requires
        0 <= i,
    ensures
        ({
            let e = entropy_end(d, i);
            &&& i <= e
            &&& e + 1 < d.len() ==> d[e] == 0xff && d[e + 1] != 0 && !is_rst(d[e + 1])
        }),
        i + 1 < d.len() && d[i] != 0xff ==> entropy_end(d, i) == entropy_end(d, i + 1),
        i + 1 < d.len() && d[i] == 0xff && (d[i + 1] == 0 || 0xd0 <= d[i + 1] <= 0xd7)
            ==> entropy_end(d, i) == entropy_end(d, i + 2),
    decreases d.len() - i,
{
    if i + 1 < d.len() {
        if d[i] != 0xff {
            law_coded_data_ends_at_a_marker(d, i + 1);
        } else if d[i + 1] == 0x00 || is_rst(d[i + 1]) {
            law_coded_data_ends_at_a_marker(d, i + 2);
        }
    }
}

/// Reading a JPEG goes from segment to segment: one with a length is passed over as a
/// whole, a marker without a length is passed over by itself, and a frame header gives the
/// size. A JPEG ends with the end marker behind the data of a scan, and it is none where it
/// ends elsewhere or has no size.
pub proof fn law_segments_are_read_one_by_one(d: Seq<u8>, i: int, n: int, dims: (nat, nat))
    requires
        0 <= i,
        i + 3 < d.len(),
        d[i] == 0xff,
        d[i + 1] != 0xff,
        n == d[i + 2] * 256 + d[i + 3],
    ensures
        ({
            let m = d[i + 1];
            let next = i + 2 + n;
            let plain = m != 1 && !is_rst(m) && m != 0xd8 && m != 0xd9;
            let whole = n >= 2 && next <= d.len();
            &&& m == 1 || 0xd0 <= m <= 0xd7 ==> walk(d, i, dims) == walk(d, i + 2, dims)
            &&& m == 0xd8 || m == 0xd9 ==> walk(d, i, dims) is None
            &&& plain && !whole ==> walk(d, i, dims) is None
            &&& plain && whole && !is_sof(m) && m != 0xda ==> walk(d, i, dims) == walk(
                d,
                next,
                dims,
            )
            &&& whole && is_sof(m) && n >= 7 ==> walk(d, i, dims) == walk(
                d,
                next,
                frame_dims(d, i + 2, dims),
            )
            &&& m == 0xda && whole ==> {
                let e = entropy_end(d, next);
                &&& e + 1 < d.len() && d[e + 1] == 0xd9 && dims.0 > 0 && dims.1 > 0 ==> walk(
                    d,
                    i,
                    dims,
                ) == Some((e + 2, dims.0, dims.1))
                &&& e + 1 < d.len() && d[e + 1] == 0xd9 && (dims.0 == 0 || dims.1 == 0) ==> walk(
                    d,
                    i,
                    dims,
                ) is None
                &&& e + 1 < d.len() && d[e + 1] != 0xd9 ==> walk(d, i, dims) == walk(d, e, dims)
                &&& e + 1 >= d.len() ==> walk(d, i, dims) is None
            }
        }),
{
    assert(after_fill(d, i + 1) == i + 1);
    assert(after_fill(d, i) == i + 1);
    assert(len_at(d, i + 2) == (if n < 2 {
        None
    } else {
        Some(n as nat)
    }));
}

/// Of two previews the one with more pixels is the larger, whichever way it lies.
pub proof fn law_larger_previews_have_more_pixels(a: JpegSpan, b: JpegSpan)
    ensures
        a.width == b.width && a.height < b.height && a.width > 0 ==> a.area() < b.area(),
        a.height == b.height && a.width < b.width && a.height > 0 ==> a.area() < b.area(),
        a.width == b.height && a.height == b.width ==> a.area() == b.area(),
{
    let w = a.width as int;
    let h = a.height as int;
    let x = b.width as int;
    let y = b.height as int;
    assert(w > 0 && h < y ==> w * h < w * y) by (nonlinear_arith);
    assert(h > 0 && w < x ==> w * h < x * h) by (nonlinear_arith);
    assert(w * h == h * w) by (nonlinear_arith);
}

/// A preview serves only from 640 pixels of width on and up to 64 megabytes. For a size
/// that is asked for, one of its sides has to reach it; a smaller size never asks for
/// more.
pub proof fn law_previews_have_a_least_width(s: JpegSpan, target: u32, smaller: u32)
    requires
        s.start <= s.end,
        smaller <= target,
    ensures
        usable(s) <==> s.width >= 640 && s.end - s.start <= 67_108_864,
        suffices(s, target) ==> usable(s) && (s.width >= target || s.height >= target),
        usable(s) && s.width >= target ==> suffices(s, target),
        usable(s) && s.height >= target ==> suffices(s, target),
        suffices(s, target) ==> suffices(s, smaller),
        preview_route(s) == "file-jpeg"@ <==> s.start == 0,
        preview_route(s) == "embedded-jpeg"@ <==> s.start > 0,
{
    reveal_strlit("file-jpeg");
    reveal_strlit("embedded-jpeg");
    assert("file-jpeg"@.len() != "embedded-jpeg"@.len());
}

/// Eyes are looked for in the fitting preview wherever it can be decoded, and else in the
/// best one, which has to have 320 pixels on each side.
pub proof fn law_eyes_are_looked_for_in_large_pictures(
    d: Seq<u8>,
    fitting: Option<JpegSpan>,
    best: Option<JpegSpan>,
)
    ensures
        ({
            let first = match fitting {
                Some(s) => picture_in(Some(d.subrange(s.start as int, s.end as int))),
                None => None,
            };
            let second = match best {
                Some(s) => picture_in(Some(d.subrange(s.start as int, s.end as int))),
                None => None,
            };
            let seen = picture_to_see(d, fitting, best);
            &&& first is Some ==> seen == first
            &&& first is None && second is Some && second->Some_0.width >= 320
                && second->Some_0.height >= 320 ==> seen == second
            &&& first is None && seen is Some ==> second == seen && seen->Some_0.width >= 320
                && seen->Some_0.height >= 320
            &&& first is None && second is None ==> seen is None
        }),
        forall|w: int, h: int| #[trigger] large_enough(w, h) == large_enough(h, w),
{
}

/// Every photo of a batch is counted once, with its outcome.
pub proof fn law_outcomes_are_counted_once(a: Seq<EyeOutcome>, o: EyeOutcome, p: EyeOutcome)
    ensures
        count_of(a.push(o), p) == count_of(a, p) + (if o == p {
            1nat
        } else {
            0nat
        }),
        count_of(Seq::<EyeOutcome>::empty(), p) == 0,
{
    assert(a.push(o).drop_last() =~= a);
}

/// A size that is asked for is made first, and the two small ones always come together.
pub proof fn law_sizes_asked_for_are_made(size: u32)
    ensures
        size == SIZE_GRID || size == SIZE_LOUPE || size == SIZE_PREVIEW ==> sizes_of(size)[0]
            == size,
        sizes_of(size).contains(SIZE_GRID) <==> sizes_of(size).contains(SIZE_MICRO),
        size == SIZE_MICRO ==> sizes_of(size).contains(size),
        sizes_of(size).no_duplicates(),
        sizes_of(size).contains(SIZE_LOUPE) ==> size == SIZE_LOUPE,
        sizes_of(size).contains(SIZE_PREVIEW) ==> size == SIZE_PREVIEW,
        SIZE_MICRO < SIZE_GRID < SIZE_LOUPE < SIZE_PREVIEW,
{
    let s = sizes_of(size);
    if size != SIZE_PREVIEW && size != SIZE_LOUPE {
        assert(s[0] == SIZE_GRID && s[1] == SIZE_MICRO);
    }
}

} // verus!
