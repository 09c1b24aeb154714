//! Pictures as plain pixels: shrinking them, framing them, and the stand-in for a
//! photo that cannot be shown.
use vstd::prelude::*;

verus! {

/// The colour of a pixel.
#[derive(Debug, Clone, Copy, PartialEq, Eq, Structural)]
pub struct Rgb {
    pub r: u8,
    pub g: u8,
    pub b: u8,
}

/// A colour picture: three bytes for each pixel, row by row.
#[derive(Debug, Clone)]
pub struct RgbBuf {
    pub width: u32,
    pub height: u32,
    pub data: Vec<u8>,
}

/// Where the bytes of the pixel in column `x` and row `y` start.
pub open spec fn byte_at(w: int, x: int, y: int) -> int {
    (y * w + x) * 3
}

/// The pixel in column `x` and row `y`.
pub open spec fn pixel(data: Seq<u8>, w: int, x: int, y: int) -> Rgb {
    let i = byte_at(w, x, y);
    Rgb { r: data[i], g: data[i + 1], b: data[i + 2] }
}

impl RgbBuf {
    pub open spec fn wf(self) -> bool {
        self.data@.len() == self.width as int * self.height as int * 3
    }

    pub open spec fn at(self, x: int, y: int) -> Rgb {
        pixel(self.data@, self.width as int, x, y)
    }
}

/// The pixels in front of column `x` of row `y`, in the order of reading, are
/// there, and are as `want` says.
pub open spec fn filled(
    data: Seq<u8>,
    w: int,
    x: int,
    y: int,
    want: spec_fn(int, int) -> Rgb,
) -> bool {
    &&& data.len() == byte_at(w, x, y)
    &&& forall|a: int, b: int|
        0 <= a < w && 0 <= b && (b < y || (b == y && a < x)) ==> #[trigger] pixel(data, w, a, b)
            == want(a, b)
}

proof fn lemma_reading_order(w: int, a: int, b: int, x: int, y: int)
    requires
        0 <= a < w,
        0 <= b,
        0 <= x <= w,
        b < y || (b == y && a < x),
    ensures
        0 <= byte_at(w, a, b),
        byte_at(w, a, b) + 3 <= byte_at(w, x, y),
{
    assert(0 <= b * w) by (nonlinear_arith)
        requires
            0 <= b,
            0 <= w,
    ;
    if b < y {
        assert((b + 1) * w <= y * w) by (nonlinear_arith)
            requires
                b + 1 <= y,
                0 <= w,
        ;
        assert((b + 1) * w == b * w + w) by (nonlinear_arith);
    }
}

/// Appends the pixel in column `x` of row `y`.
fn push_pixel(
    data: &mut Vec<u8>,
    w: u32,
    x: u32,
    y: u32,
    p: Rgb,
    Ghost(want): Ghost<spec_fn(int, int) -> Rgb>,
)
    requires
        x < w,
        filled(old(data)@, w as int, x as int, y as int, want),
        p == want(x as int, y as int),
    ensures
        filled(final(data)@, w as int, x + 1, y as int, want),
{
    let ghost before = data@;
    data.push(p.r);
    data.push(p.g);
    data.push(p.b);
    proof {
        let d = data@;
        let w = w as int;
        let x = x as int;
        let y = y as int;
        assert(byte_at(w, x + 1, y) == byte_at(w, x, y) + 3);
        assert forall|a: int, b: int|
            0 <= a < w && 0 <= b && (b < y || (b == y && a < x + 1)) implies #[trigger] pixel(
            d,
            w,
            a,
            b,
        ) == want(a, b) by {
            if b < y || a < x {
                lemma_reading_order(w, a, b, x, y);
                assert(pixel(before, w, a, b) == want(a, b));
                let i = byte_at(w, a, b);
                assert(d[i] == before[i] && d[i + 1] == before[i + 1] && d[i + 2] == before[i + 2]);
            } else {
                let i = byte_at(w, x, y);
                assert(d[i] == p.r && d[i + 1] == p.g && d[i + 2] == p.b);
            }
        }
    }
}

proof fn lemma_next_row(data: Seq<u8>, w: int, y: int, want: spec_fn(int, int) -> Rgb)
    requires
        0 <= w,
        filled(data, w, w, y, want),
    ensures
        filled(data, w, 0, y + 1, want),
{
    assert(y * w + w == (y + 1) * w) by (nonlinear_arith);
    assert forall|a: int, b: int| 0 <= a < w && 0 <= b && b < y + 1 implies #[trigger] pixel(
        data,
        w,
        a,
        b,
    ) == want(a, b) by {}
}

/// A finished picture.
fn finish(width: u32, height: u32, data: Vec<u8>, Ghost(want): Ghost<spec_fn(int, int) -> Rgb>) -> (r:
    RgbBuf)
    requires
        filled(data@, width as int, 0, height as int, want),
    ensures
        r.wf(),
        r.width == width,
        r.height == height,
        forall|x: int, y: int| 0 <= x < width && 0 <= y < height ==> #[trigger] r.at(x, y) == want(x, y),
{
    let r = RgbBuf { width, height, data };
    proof {
        assert(byte_at(width as int, 0, height as int) == width as int * height as int * 3)
            by (nonlinear_arith);
        assert forall|x: int, y: int| 0 <= x < width && 0 <= y < height implies #[trigger] r.at(
            x,
            y,
        ) == want(x, y) by {
            assert(pixel(r.data@, width as int, x, y) == want(x, y));
        }
    }
    r
}

/// The bytes of a pixel lie in the picture.
pub proof fn lemma_pixel_in_bounds(b: RgbBuf, x: int, y: int)
    requires
        b.wf(),
        0 <= x < b.width,
        0 <= y < b.height,
    ensures
        0 <= byte_at(b.width as int, x, y),
        byte_at(b.width as int, x, y) + 3 <= b.data@.len(),
{
    let w = b.width as int;
    let h = b.height as int;
    lemma_reading_order(w, x, y, 0, h);
    assert(byte_at(w, 0, h) == w * h * 3) by (nonlinear_arith);
}

// ---------------------------------------------------------------------------
// The stand-in
// ---------------------------------------------------------------------------

/// The side of the square in the middle.
pub open spec fn square_side(w: int, h: int) -> int {
    if w < h {
        w / 4
    } else {
        h / 4
    }
}

/// The width of its lines.
pub open spec fn square_stroke(w: int) -> int {
    if w / 256 < 2 {
        2
    } else {
        w / 256
    }
}

/// The pixel belongs to the square in the middle: to one of its four sides, or to
/// its diagonal.
pub open spec fn in_square(w: int, h: int, x: int, y: int) -> bool {
    let side = square_side(w, h);
    let t = square_stroke(w);
    let dx = x - (w / 2 - side / 2);
    let dy = y - (h / 2 - side / 2);
    ||| 0 <= dx < side && (0 <= dy < t || side - t <= dy < side)
    ||| 0 <= dy < side && (0 <= dx < t || side - t <= dx < side)
    ||| 0 <= dx < side && dx <= dy < dx + t
}

/// The colour of a pixel of the stand-in: a crossed-out square on a striped ground,
/// which cannot be taken for a picture that is still loading.
pub open spec fn placeholder_color(w: int, h: int, x: int, y: int) -> Rgb {
    if in_square(w, h, x, y) {
        Rgb { r: 120, g: 124, b: 133 }
    } else if (x + y) / 32 % 2 == 0 {
        Rgb { r: 46, g: 48, b: 54 }
    } else {
        Rgb { r: 38, g: 40, b: 45 }
    }
}

/// The picture shown in place of one that cannot be decoded.
pub fn placeholder(width: u32, height: u32) -> (r: RgbBuf)
    ensures
        r.wf(),
        r.width == width,
        r.height == height,
        forall|x: int, y: int|
            0 <= x < width && 0 <= y < height ==> #[trigger] r.at(x, y) == placeholder_color(
                width as int,
                height as int,
                x,
                y,
            ),
{
    let side: i64 = if width < height {
        (width / 4) as i64
    } else {
        (height / 4) as i64
    };
    let left: i64 = (width / 2) as i64 - side / 2;
    let top: i64 = (height / 2) as i64 - side / 2;
    let t: i64 = if width / 256 < 2 {
        2
    } else {
        (width / 256) as i64
    };
    let ghost want = |x: int, y: int| placeholder_color(width as int, height as int, x, y);
    let mut data: Vec<u8> = Vec::new();
    for y in 0..height
        invariant
            side == square_side(width as int, height as int),
            t == square_stroke(width as int),
            left == width / 2 - side / 2,
            top == height / 2 - side / 2,
            want == (|x: int, y: int| placeholder_color(width as int, height as int, x, y)),
            filled(data@, width as int, 0, y as int, want),
    {
        for x in 0..width
            invariant
                y < height,
                side == square_side(width as int, height as int),
                t == square_stroke(width as int),
                left == width / 2 - side / 2,
                top == height / 2 - side / 2,
                want == (|x: int, y: int| placeholder_color(width as int, height as int, x, y)),
                filled(data@, width as int, x as int, y as int, want),
        {
            let dx: i64 = x as i64 - left;
            let dy: i64 = y as i64 - top;
            let across = 0 <= dx && dx < side;
            let down = 0 <= dy && dy < side;
            let line = (across && ((0 <= dy && dy < t) || (side - t <= dy && dy < side))) || (down
                && ((0 <= dx && dx < t) || (side - t <= dx && dx < side))) || (across && dx <= dy
                && dy < dx + t);
            let p = if line {
                Rgb { r: 120, g: 124, b: 133 }
            } else if (x as u64 + y as u64) / 32 % 2 == 0 {
                Rgb { r: 46, g: 48, b: 54 }
            } else {
                Rgb { r: 38, g: 40, b: 45 }
            };
            push_pixel(&mut data, width, x, y, p, Ghost(want));
        }
        proof {
            lemma_next_row(data@, width as int, y as int, want);
        }
    }
    finish(width, height, data, Ghost(want))
}

// ---------------------------------------------------------------------------
// Shrinking
// ---------------------------------------------------------------------------

/// Where the block of input rows (or columns) for the output row `i` starts, when
/// `n` rows are made of `len`.
pub open spec fn block_start(i: int, len: int, n: int) -> int {
    i * len / n
}

/// Where that block ends: rounded up, so that no input row is left out, but never
/// empty nor behind the end.
pub open spec fn block_end(i: int, len: int, n: int) -> int {
    let e = ((i + 1) * len + n - 1) / n;
    let m = if e < len {
        e
    } else {
        len
    };
    if m < block_start(i, len, n) + 1 {
        block_start(i, len, n) + 1
    } else {
        m
    }
}

/// One of the three bytes of a pixel.
pub open spec fn channel(p: Rgb, c: int) -> nat {
    if c == 0 {
        p.r as nat
    } else if c == 1 {
        p.g as nat
    } else {
        p.b as nat
    }
}

/// The sum of a channel over the columns `x0..x1` of the row `y`.
pub open spec fn row_sum(b: RgbBuf, c: int, y: int, x0: int, x1: int) -> nat
    decreases x1 - x0,
{
    if x1 <= x0 {
        0
    } else {
        row_sum(b, c, y, x0, x1 - 1) + channel(b.at(x1 - 1, y), c)
    }
}

/// The sum of a channel over a block.
pub open spec fn block_sum(b: RgbBuf, c: int, x0: int, x1: int, y0: int, y1: int) -> nat
    decreases y1 - y0,
{
    if y1 <= y0 {
        0
    } else {
        block_sum(b, c, x0, x1, y0, y1 - 1) + row_sum(b, c, y1 - 1, x0, x1)
    }
}

/// The mean colour of a block, rounded down.
pub open spec fn block_mean(b: RgbBuf, x0: int, x1: int, y0: int, y1: int) -> Rgb {
    let n = (x1 - x0) * (y1 - y0);
    Rgb {
        r: (block_sum(b, 0, x0, x1, y0, y1) as int / n) as u8,
        g: (block_sum(b, 1, x0, x1, y0, y1) as int / n) as u8,
        b: (block_sum(b, 2, x0, x1, y0, y1) as int / n) as u8,
    }
}

/// The colour of a pixel of the picture shrunk to `nw` by `nh`: the mean of the
/// block of input pixels that it covers.
pub open spec fn shrunk(b: RgbBuf, nw: int, nh: int, x: int, y: int) -> Rgb {
    block_mean(
        b,
        block_start(x, b.width as int, nw),
        block_end(x, b.width as int, nw),
        block_start(y, b.height as int, nh),
        block_end(y, b.height as int, nh),
    )
}

proof fn lemma_block(i: int, len: int, n: int)
    requires
        0 <= i < n,
        0 < len,
    ensures
        0 <= block_start(i, len, n) < block_end(i, len, n) <= len,
{
    assert(i * len / n >= 0) by (nonlinear_arith)
        requires
            0 <= i,
            0 < len,
            0 < n,
    ;
    assert(i * len / n < len) by (nonlinear_arith)
        requires
            0 <= i < n,
            0 < len,
    ;
}

/// The blocks of all output rows cover all input rows, one after the other; where
/// the number of output rows divides that of the input rows, they do not overlap.
pub proof fn law_blocks_cover_the_picture(len: int, n: int, i: int)
    requires
        0 < n,
        0 < len,
        0 <= i < n,
    ensures
        block_start(0, len, n) == 0,
        block_end(n - 1, len, n) == len,
        i + 1 < n ==> block_start(i + 1, len, n) <= block_end(i, len, n),
        i + 1 < n && len % n == 0 ==> block_start(i + 1, len, n) == block_end(i, len, n),
{
    lemma_block(i, len, n);
    lemma_block(n - 1, len, n);
    assert(0 * len / n == 0) by (nonlinear_arith)
        requires
            0 < n,
    ;
    assert((n * len + n - 1) / n >= len) by (nonlinear_arith)
        requires
            0 < n,
            0 < len,
    ;
    let m = (i + 1) * len;
    assert((m + n - 1) / n >= m / n) by (nonlinear_arith)
        requires
            0 < n,
    ;
    if i + 1 < n {
        lemma_block(i + 1, len, n);
        if len % n == 0 {
            let k = len / n;
            assert(len == k * n) by (nonlinear_arith)
                requires
                    k == len / n,
                    len % n == 0,
                    0 < n,
            ;
            assert(m == ((i + 1) * k) * n) by (nonlinear_arith)
                requires
                    m == (i + 1) * len,
                    len == k * n,
            ;
            let q = (i + 1) * k;
            assert(m / n == q) by (nonlinear_arith)
                requires
                    m == q * n,
                    0 < n,
            ;
            assert((m + n - 1) / n == q) by (nonlinear_arith)
                requires
                    m == q * n,
                    0 < n,
            ;
            let s = i * k;
            assert(i * len == s * n) by (nonlinear_arith)
                requires
                    len == k * n,
                    s == i * k,
            ;
            assert(i * len / n == s) by (nonlinear_arith)
                requires
                    i * len == s * n,
                    0 < n,
            ;
            assert(0 < k) by (nonlinear_arith)
                requires
                    0 < len,
                    len == k * n,
                    0 < n,
            ;
            assert(q == s + k) by (nonlinear_arith)
                requires
                    q == (i + 1) * k,
                    s == i * k,
            ;
            assert(q <= len) by (nonlinear_arith)
                requires
                    q == (i + 1) * k,
                    len == k * n,
                    i + 1 <= n,
                    0 < k,
            ;
        }
    }
}

proof fn lemma_row_sum_bound(b: RgbBuf, c: int, y: int, x0: int, x1: int)
    requires
        x0 <= x1,
    ensures
        row_sum(b, c, y, x0, x1) <= 255 * (x1 - x0),
    decreases x1 - x0,
{
    if x0 < x1 {
        lemma_row_sum_bound(b, c, y, x0, x1 - 1);
    }
}

proof fn lemma_block_sum_bound(b: RgbBuf, c: int, x0: int, x1: int, y0: int, y1: int)
    requires
        x0 <= x1,
        y0 <= y1,
    ensures
        block_sum(b, c, x0, x1, y0, y1) <= 255 * ((x1 - x0) * (y1 - y0)),
    decreases y1 - y0,
{
    if y0 < y1 {
        lemma_block_sum_bound(b, c, x0, x1, y0, y1 - 1);
        lemma_row_sum_bound(b, c, y1 - 1, x0, x1);
        assert((x1 - x0) * (y1 - y0) == (x1 - x0) * (y1 - 1 - y0) + (x1 - x0)) by (nonlinear_arith);
    } else {
        assert((x1 - x0) * 0 == 0) by (nonlinear_arith);
    }
}

/// The mean colour of a block.
fn mean_of(b: &RgbBuf, x0: u32, x1: u32, y0: u32, y1: u32) -> (p: Rgb)
    requires
        b.wf(),
        x0 < x1 <= b.width,
        y0 < y1 <= b.height,
    ensures
        p == block_mean(*b, x0 as int, x1 as int, y0 as int, y1 as int),
{
    let w: usize = b.width as usize;
    let len: usize = b.data.len();
    let ghost (gx0, gx1, gy0, gy1) = (x0 as int, x1 as int, y0 as int, y1 as int);
    let mut r: u128 = 0;
    let mut g: u128 = 0;
    let mut l: u128 = 0;
    assert((x1 - x0) * (y1 - y0) <= 0xffff_ffff * 0xffff_ffff) by (nonlinear_arith)
        requires
            0 <= x1 - x0 <= 0xffff_ffff,
            0 <= y1 - y0 <= 0xffff_ffff,
    ;
    for y in y0..y1
        invariant
            b.wf(),
            x0 < x1 <= b.width,
            y0 < y1 <= b.height,
            w == b.width,
            len == b.data@.len(),
            gx0 == x0,
            gx1 == x1,
            gy0 == y0,
            (x1 - x0) * (y1 - y0) <= 0xffff_ffff * 0xffff_ffff,
            r == block_sum(*b, 0, gx0, gx1, gy0, y as int),
            g == block_sum(*b, 1, gx0, gx1, gy0, y as int),
            l == block_sum(*b, 2, gx0, gx1, gy0, y as int),
    {
        let mut rr: u64 = 0;
        let mut rg: u64 = 0;
        let mut rb: u64 = 0;
        for x in x0..x1
            invariant
                b.wf(),
                x0 < x1 <= b.width,
                y < b.height,
                w == b.width,
                len == b.data@.len(),
                gx0 == x0,
                rr == row_sum(*b, 0, y as int, gx0, x as int),
                rg == row_sum(*b, 1, y as int, gx0, x as int),
                rb == row_sum(*b, 2, y as int, gx0, x as int),
        {
            proof {
                lemma_pixel_in_bounds(*b, x as int, y as int);
                lemma_row_sum_bound(*b, 0, y as int, gx0, x as int);
                lemma_row_sum_bound(*b, 1, y as int, gx0, x as int);
                lemma_row_sum_bound(*b, 2, y as int, gx0, x as int);
                assert(0 <= y * w) by (nonlinear_arith)
                    requires
                        0 <= y,
                        0 <= w,
                ;
            }
            let i: usize = (y as usize * w + x as usize) * 3;
            rr = rr + b.data[i] as u64;
            rg = rg + b.data[i + 1] as u64;
            rb = rb + b.data[i + 2] as u64;
        }
        proof {
            lemma_block_sum_bound(*b, 0, gx0, gx1, gy0, y as int);
            lemma_block_sum_bound(*b, 1, gx0, gx1, gy0, y as int);
            lemma_block_sum_bound(*b, 2, gx0, gx1, gy0, y as int);
            assert((gx1 - gx0) * (y - gy0) <= (x1 - x0) * (y1 - y0)) by (nonlinear_arith)
                requires
                    gx0 == x0,
                    gx1 == x1,
                    gy0 == y0,
                    0 <= x1 - x0,
                    0 <= y - y0 <= y1 - y0,
            ;
        }
        r = r + rr as u128;
        g = g + rg as u128;
        l = l + rb as u128;
    }
    assert(0 < (x1 - x0) * (y1 - y0)) by (nonlinear_arith)
        requires
            0 < x1 - x0,
            0 < y1 - y0,
    ;
    let n: u128 = (x1 - x0) as u128 * (y1 - y0) as u128;
    proof {
        lemma_block_sum_bound(*b, 0, gx0, gx1, gy0, gy1);
        lemma_block_sum_bound(*b, 1, gx0, gx1, gy0, gy1);
        lemma_block_sum_bound(*b, 2, gx0, gx1, gy0, gy1);
        assert(r / n <= 255) by (nonlinear_arith)
            requires
                r <= 255 * n,
                0 < n,
        ;
        assert(g / n <= 255) by (nonlinear_arith)
            requires
                g <= 255 * n,
                0 < n,
        ;
        assert(l / n <= 255) by (nonlinear_arith)
            requires
                l <= 255 * n,
                0 < n,
        ;
    }
    Rgb { r: (r / n) as u8, g: (g / n) as u8, b: (l / n) as u8 }
}

/// The block of input rows for the output row `i`.
fn block(i: u32, len: u32, n: u32) -> (r: (u32, u32))
    requires
        i < n,
        0 < len,
    ensures
        r.0 == block_start(i as int, len as int, n as int),
        r.1 == block_end(i as int, len as int, n as int),
        r.0 < r.1 <= len,
{
    proof {
        lemma_block(i as int, len as int, n as int);
        assert(i as int * len as int <= 0xffff_ffff * 0xffff_ffff) by (nonlinear_arith)
            requires
                0 <= i <= 0xffff_ffff,
                0 <= len <= 0xffff_ffff,
        ;
        assert((i + 1) * len == i * len + len) by (nonlinear_arith);
        assert(0 <= i as int * len as int) by (nonlinear_arith)
            requires
                0 <= i,
                0 <= len,
        ;
    }
    let start: u64 = i as u64 * len as u64 / n as u64;
    let wide: u128 = i as u128 * len as u128 + len as u128 + n as u128 - 1;
    let up: u128 = wide / n as u128;
    let m: u64 = if up < len as u128 {
        up as u64
    } else {
        len as u64
    };
    let end: u64 = if m < start + 1 {
        start + 1
    } else {
        m
    };
    (start as u32, end as u32)
}

/// Shrinks a picture to exactly `nw` by `nh` pixels. Each output pixel is the mean
/// of the input pixels that it covers, so the cost depends on the input alone.
pub fn box_resize_to(img: &RgbBuf, nw: u32, nh: u32) -> (r: RgbBuf)
    requires
        img.wf(),
        nw == 0 || nh == 0 || (img.width > 0 && img.height > 0),
    ensures
        r.wf(),
        r.width == nw,
        r.height == nh,
        forall|x: int, y: int|
            0 <= x < nw && 0 <= y < nh ==> #[trigger] r.at(x, y) == shrunk(
                *img,
                nw as int,
                nh as int,
                x,
                y,
            ),
{
    let ghost want = |x: int, y: int| shrunk(*img, nw as int, nh as int, x, y);
    let mut data: Vec<u8> = Vec::new();
    for y in 0..nh
        invariant
            img.wf(),
            nw == 0 || nh == 0 || (img.width > 0 && img.height > 0),
            want == (|x: int, y: int| shrunk(*img, nw as int, nh as int, x, y)),
            filled(data@, nw as int, 0, y as int, want),
    {
        for x in 0..nw
            invariant
                img.wf(),
                y < nh,
                nw == 0 || nh == 0 || (img.width > 0 && img.height > 0),
                want == (|x: int, y: int| shrunk(*img, nw as int, nh as int, x, y)),
                filled(data@, nw as int, x as int, y as int, want),
        {
            let (y0, y1) = block(y, img.height, nh);
            let (x0, x1) = block(x, img.width, nw);
            let p = mean_of(img, x0, x1, y0, y1);
            push_pixel(&mut data, nw, x, y, p, Ghost(want));
        }
        proof {
            lemma_next_row(data@, nw as int, y as int, want);
        }
    }
    finish(nw, nh, data, Ghost(want))
}

/// The longer side of a picture.
pub open spec fn long_side(b: RgbBuf) -> u32 {
    if b.width < b.height {
        b.height
    } else {
        b.width
    }
}

/// Shrinks a picture to a longest side of `target_long`; `scaled` is its size at
/// that scale. A picture that is small enough stays as it is: to enlarge it would
/// only show edges that are not there.
pub fn box_resize(img: &RgbBuf, target_long: u32, scaled: (u32, u32)) -> (r: RgbBuf)
    requires
        img.wf(),
        long_side(*img) <= target_long || (img.width > 0 && img.height > 0),
    ensures
        r.wf(),
        long_side(*img) <= target_long ==> r.width == img.width && r.height == img.height && r.data@
            == img.data@,
        long_side(*img) > target_long ==> {
            let nw = if scaled.0 == 0 {
                1
            } else {
                scaled.0
            };
            let nh = if scaled.1 == 0 {
                1
            } else {
                scaled.1
            };
            &&& r.width == nw
            &&& r.height == nh
            &&& forall|x: int, y: int|
                0 <= x < nw && 0 <= y < nh ==> #[trigger] r.at(x, y) == shrunk(
                    *img,
                    nw as int,
                    nh as int,
                    x,
                    y,
                )
        },
{
    let long: u32 = if img.width < img.height {
        img.height
    } else {
        img.width
    };
    if long <= target_long {
        return RgbBuf {
            width: img.width,
            height: img.height,
            data: vstd::slice::slice_to_vec(img.data.as_slice()),
        };
    }
    let nw: u32 = if scaled.0 == 0 {
        1
    } else {
        scaled.0
    };
    let nh: u32 = if scaled.1 == 0 {
        1
    } else {
        scaled.1
    };
    box_resize_to(img, nw, nh)
}

/// The colour of a pixel of a black square with the picture in its middle.
pub open spec fn framed(b: RgbBuf, size: int, x: int, y: int) -> Rgb {
    let ox = (size - b.width) / 2;
    let oy = (size - b.height) / 2;
    if ox <= x < ox + b.width && oy <= y < oy + b.height {
        b.at(x - ox, y - oy)
    } else {
        Rgb { r: 0, g: 0, b: 0 }
    }
}

/// Puts a picture in the middle of a black square, and gives its offsets in it. A
/// picture that was stretched to the square instead would have its faces squeezed.
pub fn letterbox(small: &RgbBuf, size: u32) -> (r: (RgbBuf, u32, u32))
    requires
        small.wf(),
        small.width <= size,
        small.height <= size,
    ensures
        r.0.wf(),
        r.0.width == size,
        r.0.height == size,
        r.1 == (size - small.width) / 2,
        r.2 == (size - small.height) / 2,
        forall|x: int, y: int|
            0 <= x < size && 0 <= y < size ==> #[trigger] r.0.at(x, y) == framed(
                *small,
                size as int,
                x,
                y,
            ),
{
    let ox: u32 = (size - small.width) / 2;
    let oy: u32 = (size - small.height) / 2;
    let w: usize = small.width as usize;
    let len: usize = small.data.len();
    let ghost want = |x: int, y: int| framed(*small, size as int, x, y);
    let mut data: Vec<u8> = Vec::new();
    for y in 0..size
        invariant
            small.wf(),
            small.width <= size,
            small.height <= size,
            ox == (size - small.width) / 2,
            oy == (size - small.height) / 2,
            w == small.width,
            len == small.data@.len(),
            want == (|x: int, y: int| framed(*small, size as int, x, y)),
            filled(data@, size as int, 0, y as int, want),
    {
        for x in 0..size
            invariant
                y < size,
                small.wf(),
                small.width <= size,
                small.height <= size,
                ox == (size - small.width) / 2,
                oy == (size - small.height) / 2,
                w == small.width,
                len == small.data@.len(),
                want == (|x: int, y: int| framed(*small, size as int, x, y)),
                filled(data@, size as int, x as int, y as int, want),
        {
            let p = if x >= ox && x - ox < small.width && y >= oy && y - oy < small.height {
                let sx: u32 = x - ox;
                let sy: u32 = y - oy;
                proof {
                    lemma_pixel_in_bounds(*small, sx as int, sy as int);
                    assert(0 <= sy * w) by (nonlinear_arith)
                        requires
                            0 <= sy,
                            0 <= w,
                    ;
                }
                let i: usize = (sy as usize * w + sx as usize) * 3;
                Rgb { r: small.data[i], g: small.data[i + 1], b: small.data[i + 2] }
            } else {
                Rgb { r: 0, g: 0, b: 0 }
            };
            push_pixel(&mut data, size, x, y, p, Ghost(want));
        }
        proof {
            lemma_next_row(data@, size as int, y as int, want);
        }
    }
    (finish(size, size, data, Ghost(want)), ox, oy)
}

} // verus!
