//! Finding the JPEG previews that a camera stores inside its files.
//!
//! A RAW file carries the camera's own full-size JPEG. It is found by walking
//! marker segments, never by looking for the first end marker: the preview's
//! EXIF block may hold a small JPEG of its own, and that one's end marker must
//! not be taken for the end of the preview.
use vstd::prelude::*;

verus! {

/// Candidates narrower than this are EXIF thumbnails, not previews.
pub const MIN_PREVIEW_WIDTH: u32 = 640;

/// A candidate longer than this is not taken for a picture.
pub const MAX_CANDIDATE_BYTES: usize = 64 * 1024 * 1024;

/// Where a JPEG stands in a file, and its size in pixels.
#[derive(Debug, Clone, Copy, PartialEq, Eq, Structural)]
pub struct JpegSpan {
    /// Offset of the first byte of the start marker.
    pub start: usize,
    /// Offset just behind the end marker.
    pub end: usize,
    pub width: u32,
    pub height: u32,
}

impl JpegSpan {
    pub open spec fn area(self) -> nat {
        self.width as nat * self.height as nat
    }

    /// The number of bytes of the JPEG.
    pub fn len(&self) -> (r: usize)
        requires
            self.start <= self.end,
        ensures
            r == self.end - self.start,
    {
        self.end - self.start
    }

    /// The number of pixels of the JPEG.
    pub fn pixels(&self) -> (r: u64)
        ensures
            r == self.area(),
    {
        let w: u64 = self.width as u64;
        let h: u64 = self.height as u64;
        assert(w * h <= 0xffff_ffff * 0xffff_ffff) by (nonlinear_arith)
            requires
                w <= 0xffff_ffff,
                h <= 0xffff_ffff,
        ;
        w * h
    }
}

// ---------------------------------------------------------------------------
// The segment structure of a JPEG
// ---------------------------------------------------------------------------

pub open spec fn be16(hi: u8, lo: u8) -> nat {
    hi as nat * 256 + lo as nat
}

/// A restart marker.
pub open spec fn is_rst(m: u8) -> bool {
    0xd0 <= m <= 0xd7
}

/// A marker without a length field.
pub open spec fn is_bare(m: u8) -> bool {
    m == 0x01 || is_rst(m)
}

/// A frame header, which carries the size in pixels. C4, C8 and CC look like
/// frame headers but are not.
pub open spec fn is_sof(m: u8) -> bool {
    0xc0 <= m <= 0xcf && m != 0xc4 && m != 0xc8 && m != 0xcc
}

/// The first position from `i` on that does not hold the fill byte FF.
pub open spec fn after_fill(d: Seq<u8>, i: int) -> int
    decreases d.len() - i,
{
    if 0 <= i < d.len() && d[i] == 0xff {
        after_fill(d, i + 1)
    } else {
        i
    }
}

/// The length field at `i`. It counts its own two bytes.
pub open spec fn len_at(d: Seq<u8>, i: int) -> Option<nat> {
    if i + 1 >= d.len() || be16(d[i], d[i + 1]) < 2 {
        None
    } else {
        Some(be16(d[i], d[i + 1]))
    }
}

/// Where the entropy-coded data that starts at `i` stops: at the first FF that
/// starts neither an escaped FF (FF 00) nor a restart marker. Where there is
/// none, a position that leaves no room for a marker.
pub open spec fn entropy_end(d: Seq<u8>, i: int) -> int
    decreases d.len() - i,
{
    if i < 0 || i + 1 >= d.len() {
        i
    } else if d[i] != 0xff {
        entropy_end(d, i + 1)
    } else if d[i + 1] == 0x00 || is_rst(d[i + 1]) {
        entropy_end(d, i + 2)
    } else {
        i
    }
}

/// The size in pixels that the frame header whose length field is at `i` gives,
/// where it gives one.
pub open spec fn frame_dims(d: Seq<u8>, i: int, dims: (nat, nat)) -> (nat, nat) {
    let h = be16(d[i + 3], d[i + 4]);
    let w = be16(d[i + 5], d[i + 6]);
    if w > 0 && h > 0 {
        (w, h)
    } else {
        dims
    }
}

/// The end of a JPEG and its size, read segment by segment from the marker at
/// `i`; `dims` is the size that earlier frame headers gave. A segment with a
/// length is skipped as a whole, whatever its payload holds. The end is the end
/// marker that closes the data of a scan.
pub open spec fn walk(d: Seq<u8>, i: int, dims: (nat, nat)) -> Option<(int, nat, nat)>
    decreases d.len() - i,
    via walk_decreases
{
    if i < 0 || i + 1 >= d.len() || d[i] != 0xff {
        None
    } else {
        let j = after_fill(d, i);
        let m = d[j];
        let k = j + 1;
        if j >= d.len() || m == 0xd8 || m == 0xd9 {
            None
        } else if is_bare(m) {
            walk(d, k, dims)
        } else {
            match len_at(d, k) {
                None => None,
                Some(n) => if k + n > d.len() || (is_sof(m) && n < 7) {
                    None
                } else if m == 0xda {
                    let e = entropy_end(d, k + n);
                    if e + 1 >= d.len() {
                        None
                    } else if d[e + 1] != 0xd9 {
                        walk(d, e, dims)
                    } else if dims.0 > 0 && dims.1 > 0 {
                        Some((e + 2, dims.0, dims.1))
                    } else {
                        None
                    }
                } else if is_sof(m) {
                    walk(d, k + n, frame_dims(d, k, dims))
                } else {
                    walk(d, k + n, dims)
                },
            }
        }
    }
}

#[via_fn]
proof fn walk_decreases(d: Seq<u8>, i: int, dims: (nat, nat)) {
    if 0 <= i && i + 1 < d.len() && d[i] == 0xff {
        lemma_after_fill(d, i);
        let k = after_fill(d, i) + 1;
        match len_at(d, k) {
            Some(n) => {
                lemma_entropy_end(d, k + n);
            },
            None => {},
        }
    }
}

pub proof fn lemma_after_fill(d: Seq<u8>, i: int)
    requires
        0 <= i,
    ensures
        i <= after_fill(d, i),
        i < d.len() ==> after_fill(d, i) <= d.len(),
        i < d.len() && d[i] == 0xff ==> i < after_fill(d, i),
        i <= after_fill(d, i) < d.len() ==> d[after_fill(d, i)] != 0xff,
    decreases d.len() - i,
{
    if i < d.len() && d[i] == 0xff {
        lemma_after_fill(d, i + 1);
    }
}

pub proof fn lemma_entropy_end(d: Seq<u8>, i: int)
    requires
        0 <= i,
    ensures
        i <= entropy_end(d, i),
        entropy_end(d, i) + 1 < d.len() ==> d[entropy_end(d, i)] == 0xff,
    decreases d.len() - i,
{
    if i + 1 < d.len() {
        if d[i] != 0xff {
            lemma_entropy_end(d, i + 1);
        } else if d[i + 1] == 0x00 || is_rst(d[i + 1]) {
            lemma_entropy_end(d, i + 2);
        }
    }
}

/// The JPEG that stands at the start of `d`, if one does: its end and its size.
pub open spec fn jpeg_at_start(d: Seq<u8>) -> Option<(int, nat, nat)> {
    if d.len() < 4 || d[0] != 0xff || d[1] != 0xd8 {
        None
    } else {
        walk(d, 2, (0, 0))
    }
}

/// A JPEG that was found ends inside the data, with an end marker, and has a
/// size of at least one pixel and at most 65535 pixels either way.
pub proof fn lemma_walk_end(d: Seq<u8>, i: int, dims: (nat, nat))
    requires
        0 <= i,
        dims.0 <= 0xffff,
        dims.1 <= 0xffff,
    ensures
        walk(d, i, dims) matches Some((e, w, h)) ==> {
            &&& i < e - 1
            &&& e <= d.len()
            &&& d[e - 2] == 0xff
            &&& d[e - 1] == 0xd9
            &&& 0 < w <= 0xffff
            &&& 0 < h <= 0xffff
        },
    decreases d.len() - i,
{
    if i + 1 < d.len() && d[i] == 0xff {
        lemma_after_fill(d, i);
        let j = after_fill(d, i);
        let k = j + 1;
        if j < d.len() {
            let m = d[j];
            if is_bare(m) {
                lemma_walk_end(d, k, dims);
            } else {
                match len_at(d, k) {
                    Some(n) => {
                        lemma_entropy_end(d, k + n);
                        let e = entropy_end(d, k + n);
                        if k + n <= d.len() && !(is_sof(m) && n < 7) {
                            if e + 1 < d.len() {
                                lemma_walk_end(d, e, dims);
                            }
                            lemma_walk_end(d, k + n, dims);
                            if is_sof(m) {
                                lemma_walk_end(d, k + n, frame_dims(d, k, dims));
                            }
                        }
                    },
                    None => {},
                }
            }
        }
    }
}

/// The length field at `i`, where there is a valid one.
pub fn read_len(data: &[u8], i: usize) -> (r: Option<usize>)
    ensures
        r == match len_at(data@, i as int) {
            Some(n) => Some(n as usize),
            None => None,
        },
{
    if data.len() < 2 || i > data.len() - 2 {
        return None;
    }
    let n: usize = data[i] as usize * 256 + data[i + 1] as usize;
    if n < 2 {
        return None;
    }
    Some(n)
}

/// Reads the JPEG that `data` starts with: where it ends, and its size.
pub fn parse_jpeg_span(data: &[u8]) -> (r: Option<JpegSpan>)
    ensures
        match jpeg_at_start(data@) {
            Some((e, w, h)) => r == Some(
                (JpegSpan { start: 0, end: e as usize, width: w as u32, height: h as u32 }),
            ) && 4 <= e <= data@.len() && 0 < w <= 0xffff && 0 < h <= 0xffff,
            None => r is None,
        },
{
    let n: usize = data.len();
    if n < 4 || data[0] != 0xff || data[1] != 0xd8 {
        return None;
    }
    let ghost d = data@;
    let mut i: usize = 2;
    let mut width: u32 = 0;
    let mut height: u32 = 0;
    proof {
        lemma_walk_end(d, 2, (0, 0));
    }
    loop
        invariant
            d == data@,
            n == d.len(),
            n >= 4,
            2 <= i <= n,
            width <= 0xffff,
            height <= 0xffff,
            jpeg_at_start(d) == walk(d, i as int, (width as nat, height as nat)),
            jpeg_at_start(d) matches Some((e, w, h)) ==> 4 <= e <= n && 0 < w <= 0xffff && 0 < h
                <= 0xffff,
        decreases n - i,
    {
        if n - i < 2 || data[i] != 0xff {
            return None;
        }
        let ghost at = i as int;
        let ghost dims = (width as nat, height as nat);
        proof {
            lemma_after_fill(d, at);
        }
        while i < n && data[i] == 0xff
            invariant
                d == data@,
                n == d.len(),
                at <= i <= n,
                after_fill(d, at) == after_fill(d, i as int),
            decreases n - i,
        {
            i = i + 1;
        }
        assert(i == after_fill(d, at));
        if i >= n {
            return None;
        }
        let marker: u8 = data[i];
        i = i + 1;
        if marker == 0xd8 || marker == 0xd9 {
            return None;
        }
        if marker == 0x01 || (0xd0 <= marker && marker <= 0xd7) {
            continue ;
        }
        let len: usize = match read_len(data, i) {
            Some(v) => v,
            None => return None,
        };
        if len > n - i {
            return None;
        }
        if marker == 0xda {
            let ghost from = i + len;
            i = i + len;
            let mut done = false;
            while !done && i < n - 1
                invariant
                    d == data@,
                    n == d.len(),
                    n >= 4,
                    from <= i <= n,
                    entropy_end(d, from) == entropy_end(d, i as int),
                    done ==> i + 1 < n && entropy_end(d, i as int) == i && d[i as int] == 0xff,
                decreases n - i + (if done { 0int } else { 1 }),
            {
                if data[i] == 0xff {
                    let m: u8 = data[i + 1];
                    if m == 0x00 || (0xd0 <= m && m <= 0xd7) {
                        i = i + 2;
                    } else {
                        done = true;
                    }
                } else {
                    i = i + 1;
                }
            }
            assert(i == entropy_end(d, from));
            if i >= n - 1 {
                return None;
            }
            if data[i + 1] == 0xd9 {
                if width > 0 && height > 0 {
                    return Some(JpegSpan { start: 0, end: i + 2, width, height });
                }
                return None;
            }
            proof {
                lemma_entropy_end(d, from);
            }
        } else {
            if 0xc0 <= marker && marker <= 0xcf && marker != 0xc4 && marker != 0xc8 && marker
                != 0xcc {
                if len < 7 {
                    return None;
                }
                let h: u32 = data[i + 3] as u32 * 256 + data[i + 4] as u32;
                let w: u32 = data[i + 5] as u32 * 256 + data[i + 6] as u32;
                if w > 0 && h > 0 {
                    width = w;
                    height = h;
                }
            }
            i = i + len;
        }
    }
}

// ---------------------------------------------------------------------------
// Choosing a preview
// ---------------------------------------------------------------------------

/// FF D8 FF: a start marker with another marker behind it.
pub open spec fn starts_jpeg(d: Seq<u8>, i: int) -> bool {
    0 <= i && i + 3 < d.len() && d[i] == 0xff && d[i + 1] == 0xd8 && d[i + 2] == 0xff
}

/// The JPEGs of `d` from `i` on, each searched for behind the end of the one
/// before it.
pub open spec fn jpegs_from(d: Seq<u8>, i: int) -> Seq<JpegSpan>
    decreases d.len() - i,
{
    if i < 0 || i + 3 >= d.len() {
        Seq::empty()
    } else if starts_jpeg(d, i) {
        match jpeg_at_start(d.skip(i)) {
            Some((e, w, h)) if 0 < e <= d.len() - i => seq![
                JpegSpan {
                    start: i as usize,
                    end: (i + e) as usize,
                    width: w as u32,
                    height: h as u32,
                },
            ] + jpegs_from(d, i + e),
            _ => jpegs_from(d, i + 1),
        }
    } else {
        jpegs_from(d, i + 1)
    }
}

/// All JPEGs that stand in `d` one behind the other.
pub open spec fn jpegs(d: Seq<u8>) -> Seq<JpegSpan> {
    jpegs_from(d, 0)
}

/// A JPEG that can serve as a preview.
pub open spec fn usable(s: JpegSpan) -> bool {
    s.end - s.start <= MAX_CANDIDATE_BYTES && s.width >= MIN_PREVIEW_WIDTH
}

/// `b` is the first of the usable JPEGs in `found` that have the most pixels.
pub open spec fn is_best(b: Option<JpegSpan>, found: Seq<JpegSpan>) -> bool {
    match b {
        None => forall|j: int| 0 <= j < found.len() ==> !usable(#[trigger] found[j]),
        Some(s) => exists|k: int|
            {
                &&& 0 <= k < found.len()
                &&& #[trigger] found[k] == s
                &&& usable(s)
                &&& forall|j: int|
                    0 <= j < found.len() && usable(#[trigger] found[j]) ==> {
                        &&& found[j].area() <= s.area()
                        &&& j < k ==> found[j].area() < s.area()
                    }
            },
    }
}

proof fn lemma_best_step(b: Option<JpegSpan>, found: Seq<JpegSpan>, s: JpegSpan)
    requires
        is_best(b, found),
    ensures
        usable(s) && (b is None || b->Some_0.area() < s.area()) ==> is_best(
            Some(s),
            found.push(s),
        ),
        !(usable(s) && (b is None || b->Some_0.area() < s.area())) ==> is_best(b, found.push(s)),
{
    let more = found.push(s);
    assert(more.last() == s);
    assert forall|j: int| 0 <= j < found.len() implies more[j] == found[j] by {}
    if usable(s) && (b is None || b->Some_0.area() < s.area()) {
        assert(more[found.len() as int] == s);
    } else if let Some(t) = b {
        let k = choose|k: int|
            {
                &&& 0 <= k < found.len()
                &&& #[trigger] found[k] == t
                &&& usable(t)
                &&& forall|j: int|
                    0 <= j < found.len() && usable(#[trigger] found[j]) ==> {
                        &&& found[j].area() <= t.area()
                        &&& j < k ==> found[j].area() < t.area()
                    }
            };
        assert(more[k] == t);
    }
}

/// All JPEGs that stand in `data` one behind the other.
fn find_jpegs(data: &[u8]) -> (r: Vec<JpegSpan>)
    ensures
        r@ == jpegs(data@),
{
    let n: usize = data.len();
    let ghost d = data@;
    let mut found: Vec<JpegSpan> = Vec::new();
    let mut i: usize = 0;
    proof {
        assert(found@ + jpegs_from(d, 0) =~= jpegs_from(d, 0));
    }
    while i < n && n - i > 3
        invariant
            d == data@,
            n == d.len(),
            i <= n,
            jpegs(d) == found@ + jpegs_from(d, i as int),
        decreases n - i,
    {
        if data[i] == 0xff && data[i + 1] == 0xd8 && data[i + 2] == 0xff {
            let rest = vstd::slice::slice_subrange(data, i, n);
            proof {
                assert(rest@ =~= d.skip(i as int));
            }
            if let Some(rel) = parse_jpeg_span(rest) {
                let span = JpegSpan {
                    start: i,
                    end: i + rel.end,
                    width: rel.width,
                    height: rel.height,
                };
                proof {
                    let tail = jpegs_from(d, span.end as int);
                    assert(found@ + (seq![span] + tail) =~= found@.push(span) + tail);
                }
                found.push(span);
                i = span.end;
                continue ;
            }
        }
        i = i + 1;
    }
    assert(found@ + jpegs_from(d, i as int) =~= found@);
    found
}

/// The preview with the most pixels in `data`.
///
/// Taking the largest matters: beside the full-size preview a RAW file holds a
/// small thumbnail, and often previews of sizes in between.
pub fn best_jpeg(data: &[u8]) -> (r: Option<JpegSpan>)
    ensures
        is_best(r, jpegs(data@)),
{
    let n: usize = data.len();
    let found = find_jpegs(data);
    let mut best: Option<JpegSpan> = None;
    proof {
        assert(found@.take(0) =~= Seq::<JpegSpan>::empty());
    }
    for i in 0..found.len()
        invariant
            found@ == jpegs(data@),
            data@.len() == n,
            is_best(best, found@.take(i as int)),
    {
        let span = found[i];
        proof {
            lemma_jpegs_from(data@, 0, i as int);
            lemma_best_step(best, found@.take(i as int), span);
            assert(found@.take(i + 1) =~= found@.take(i as int).push(span));
        }
        if span.len() <= MAX_CANDIDATE_BYTES && span.width >= MIN_PREVIEW_WIDTH {
            let better = match best {
                None => true,
                Some(b) => span.pixels() > b.pixels(),
            };
            if better {
                best = Some(span);
            }
        }
    }
    assert(found@.take(found@.len() as int) =~= found@);
    best
}

/// A JPEG that can serve as a preview where the longer side has to have `target`
/// pixels.
pub open spec fn suffices(s: JpegSpan, target: u32) -> bool {
    usable(s) && (s.width >= target || s.height >= target)
}

/// `b` is the first of the JPEGs in `found` that have the fewest pixels among those
/// that suffice.
pub open spec fn is_fitting(b: Option<JpegSpan>, found: Seq<JpegSpan>, target: u32) -> bool {
    match b {
        None => forall|j: int| 0 <= j < found.len() ==> !suffices(#[trigger] found[j], target),
        Some(s) => exists|k: int|
            {
                &&& 0 <= k < found.len()
                &&& #[trigger] found[k] == s
                &&& suffices(s, target)
                &&& forall|j: int|
                    0 <= j < found.len() && suffices(#[trigger] found[j], target) ==> {
                        &&& found[j].area() >= s.area()
                        &&& j < k ==> found[j].area() > s.area()
                    }
            },
    }
}

proof fn lemma_fitting_step(
    b: Option<JpegSpan>,
    found: Seq<JpegSpan>,
    target: u32,
    s: JpegSpan,
)
    requires
        is_fitting(b, found, target),
    ensures
        suffices(s, target) && (b is None || b->Some_0.area() > s.area()) ==> is_fitting(
            Some(s),
            found.push(s),
            target,
        ),
        !(suffices(s, target) && (b is None || b->Some_0.area() > s.area())) ==> is_fitting(
            b,
            found.push(s),
            target,
        ),
{
    let more = found.push(s);
    assert(more.last() == s);
    assert forall|j: int| 0 <= j < found.len() implies more[j] == found[j] by {}
    if suffices(s, target) && (b is None || b->Some_0.area() > s.area()) {
        assert(more[found.len() as int] == s);
    } else if let Some(t) = b {
        let k = choose|k: int|
            {
                &&& 0 <= k < found.len()
                &&& #[trigger] found[k] == t
                &&& suffices(t, target)
                &&& forall|j: int|
                    0 <= j < found.len() && suffices(#[trigger] found[j], target) ==> {
                        &&& found[j].area() >= t.area()
                        &&& j < k ==> found[j].area() > t.area()
                    }
            };
        assert(more[k] == t);
    }
}

/// The smallest preview in `data` whose longer side has `target` pixels or more. It is
/// decoded much faster than the largest.
pub fn fitting_jpeg(data: &[u8], target: u32) -> (r: Option<JpegSpan>)
    ensures
        is_fitting(r, jpegs(data@), target),
{
    let n: usize = data.len();
    let found = find_jpegs(data);
    let mut fitting: Option<JpegSpan> = None;
    proof {
        assert(found@.take(0) =~= Seq::<JpegSpan>::empty());
    }
    for i in 0..found.len()
        invariant
            found@ == jpegs(data@),
            data@.len() == n,
            is_fitting(fitting, found@.take(i as int), target),
    {
        let span = found[i];
        proof {
            lemma_jpegs_from(data@, 0, i as int);
            lemma_fitting_step(fitting, found@.take(i as int), target, span);
            assert(found@.take(i + 1) =~= found@.take(i as int).push(span));
        }
        if span.len() <= MAX_CANDIDATE_BYTES && span.width >= MIN_PREVIEW_WIDTH && (span.width
            >= target || span.height >= target) {
            let better = match fitting {
                None => true,
                Some(b) => span.pixels() < b.pixels(),
            };
            if better {
                fitting = Some(span);
            }
        }
    }
    assert(found@.take(found@.len() as int) =~= found@);
    fitting
}

/// There is only one fitting preview: the first of the smallest that suffice.
pub proof fn law_fitting_preview_is_unique(
    a: Option<JpegSpan>,
    b: Option<JpegSpan>,
    found: Seq<JpegSpan>,
    target: u32,
)
    requires
        is_fitting(a, found, target),
        is_fitting(b, found, target),
    ensures
        a == b,
{
    match (a, b) {
        (Some(x), Some(y)) => {
            let i = choose|k: int|
                {
                    &&& 0 <= k < found.len()
                    &&& #[trigger] found[k] == x
                    &&& suffices(x, target)
                    &&& forall|j: int|
                        0 <= j < found.len() && suffices(#[trigger] found[j], target) ==> {
                            &&& found[j].area() >= x.area()
                            &&& j < k ==> found[j].area() > x.area()
                        }
                };
            let j = choose|k: int|
                {
                    &&& 0 <= k < found.len()
                    &&& #[trigger] found[k] == y
                    &&& suffices(y, target)
                    &&& forall|j: int|
                        0 <= j < found.len() && suffices(#[trigger] found[j], target) ==> {
                            &&& found[j].area() >= y.area()
                            &&& j < k ==> found[j].area() > y.area()
                        }
                };
            assert(found[i].area() >= y.area());
            assert(found[j].area() >= x.area());
            assert(i == j);
        },
        (Some(x), None) => {
            let i = choose|k: int|
                0 <= k < found.len() && #[trigger] found[k] == x && suffices(x, target);
            assert(!suffices(found[i], target));
        },
        (None, Some(y)) => {
            let i = choose|k: int|
                0 <= k < found.len() && #[trigger] found[k] == y && suffices(y, target);
            assert(!suffices(found[i], target));
        },
        (None, None) => {},
    }
}

/// The bytes of a JPEG in `d`.
pub open spec fn span_bytes(d: Seq<u8>, s: JpegSpan) -> Seq<u8> {
    d.subrange(s.start as int, s.end as int)
}

/// The bytes of the fitting preview in a file's content.
pub fn fitting_jpeg_bytes(data: &[u8], target: u32) -> (r: Option<Vec<u8>>)
    ensures
        exists|s: Option<JpegSpan>|
            {
                &&& #[trigger] is_fitting(s, jpegs(data@), target)
                &&& match s {
                    Some(b) => r is Some && r->Some_0@ == span_bytes(data@, b),
                    None => r is None,
                }
            },
{
    let n: usize = data.len();
    let fitting = fitting_jpeg(data, target);
    match fitting {
        None => None,
        Some(span) => {
            proof {
                assert(data@.len() == n);
                let found = jpegs(data@);
                let k = choose|k: int| 0 <= k < found.len() && #[trigger] found[k] == span;
                lemma_jpegs_from(data@, 0, k);
            }
            Some(
                vstd::slice::slice_to_vec(
                    vstd::slice::slice_subrange(data, span.start, span.end),
                ),
            )
        },
    }
}

/// What `best_jpeg` picks is cut out at marker bounds: it lies inside the data,
/// starts with a start marker and ends with an end marker, and a search from its
/// first byte reads exactly this JPEG.
pub proof fn law_preview_is_a_whole_jpeg(d: Seq<u8>, b: JpegSpan)
    requires
        d.len() <= usize::MAX,
        is_best(Some(b), jpegs(d)),
    ensures
        b.start < b.end <= d.len(),
        starts_jpeg(d, b.start as int),
        d[b.end - 2] == 0xff && d[b.end - 1] == 0xd9,
        jpeg_at_start(d.skip(b.start as int)) == Some(
            (b.end - b.start, b.width as nat, b.height as nat),
        ),
        b.width >= MIN_PREVIEW_WIDTH,
        b.height > 0,
        b.end - b.start <= MAX_CANDIDATE_BYTES,
{
    let k = choose|k: int| 0 <= k < jpegs(d).len() && #[trigger] jpegs(d)[k] == b;
    lemma_jpegs_from(d, 0, k);
}

proof fn lemma_jpegs_from(d: Seq<u8>, i: int, k: int)
    requires
        0 <= i,
        d.len() <= usize::MAX,
        0 <= k < jpegs_from(d, i).len(),
    ensures
        ({
            let b = jpegs_from(d, i)[k];
            &&& b.start < b.end <= d.len()
            &&& starts_jpeg(d, b.start as int)
            &&& d[b.end - 2] == 0xff && d[b.end - 1] == 0xd9
            &&& b.height > 0
            &&& jpeg_at_start(d.skip(b.start as int)) == Some(
                (b.end - b.start, b.width as nat, b.height as nat),
            )
        }),
    decreases d.len() - i,
{
    if i + 3 < d.len() {
        if starts_jpeg(d, i) && jpeg_at_start(d.skip(i)) is Some {
            let t = d.skip(i);
            lemma_walk_end(t, 2, (0, 0));
            let (e, w, h) = jpeg_at_start(t)->Some_0;
            assert(t[e - 2] == d[i + e - 2] && t[e - 1] == d[i + e - 1]);
            if k > 0 {
                lemma_jpegs_from(d, i + e, k - 1);
            }
        } else {
            lemma_jpegs_from(d, i + 1, k);
        }
    }
}

/// There is only one best preview: the first of the largest.
pub proof fn law_best_preview_is_unique(
    a: Option<JpegSpan>,
    b: Option<JpegSpan>,
    found: Seq<JpegSpan>,
)
    requires
        is_best(a, found),
        is_best(b, found),
    ensures
        a == b,
{
    match (a, b) {
        (Some(x), Some(y)) => {
            let i = choose|k: int|
                {
                    &&& 0 <= k < found.len()
                    &&& #[trigger] found[k] == x
                    &&& usable(x)
                    &&& forall|j: int|
                        0 <= j < found.len() && usable(#[trigger] found[j]) ==> {
                            &&& found[j].area() <= x.area()
                            &&& j < k ==> found[j].area() < x.area()
                        }
                };
            let j = choose|k: int|
                {
                    &&& 0 <= k < found.len()
                    &&& #[trigger] found[k] == y
                    &&& usable(y)
                    &&& forall|j: int|
                        0 <= j < found.len() && usable(#[trigger] found[j]) ==> {
                            &&& found[j].area() <= y.area()
                            &&& j < k ==> found[j].area() < y.area()
                        }
                };
            assert(found[i].area() <= y.area());
            assert(found[j].area() <= x.area());
            assert(i == j);
        },
        (Some(x), None) => {
            let i = choose|k: int| 0 <= k < found.len() && #[trigger] found[k] == x && usable(x);
            assert(!usable(found[i]));
        },
        (None, Some(y)) => {
            let i = choose|k: int| 0 <= k < found.len() && #[trigger] found[k] == y && usable(y);
            assert(!usable(found[i]));
        },
        (None, None) => {},
    }
}

/// How a picture was come by, as it is recorded for diagnosis.
pub open spec fn preview_route(s: JpegSpan) -> Seq<char> {
    if s.start == 0 {
        "file-jpeg"@
    } else {
        "embedded-jpeg"@
    }
}

/// The bytes of the best preview in a file's content, and the route by which it
/// was found: a preview at the very start is the file itself.
pub fn best_jpeg_bytes(data: &[u8]) -> (r: Option<(Vec<u8>, &'static str)>)
    ensures
        match r {
            None => is_best(None, jpegs(data@)),
            Some((bytes, route)) => exists|b: JpegSpan|
                #![trigger is_best(Some(b), jpegs(data@))]
                {
                    &&& is_best(Some(b), jpegs(data@))
                    &&& bytes@ == data@.subrange(b.start as int, b.end as int)
                    &&& route@ == preview_route(b)
                },
        },
{
    let n: usize = data.len();
    match best_jpeg(data) {
        None => None,
        Some(span) => {
            proof {
                assert(data@.len() == n);
                law_preview_is_a_whole_jpeg(data@, span);
            }
            let part = vstd::slice::slice_subrange(data, span.start, span.end);
            let route = if span.start == 0 {
                "file-jpeg"
            } else {
                "embedded-jpeg"
            };
            Some((vstd::slice::slice_to_vec(part), route))
        },
    }
}

// ---------------------------------------------------------------------------
// Nested pictures
// ---------------------------------------------------------------------------

proof fn lemma_walk_reads_ahead_only(d1: Seq<u8>, d2: Seq<u8>, i: int, dims: (nat, nat))
    requires
        0 <= i,
        d1.len() == d2.len(),
        forall|j: int| i <= j < d1.len() ==> d1[j] == d2[j],
    ensures
        walk(d1, i, dims) == walk(d2, i, dims),
    decreases d1.len() - i,
{
    if i + 1 < d1.len() && d1[i] == 0xff {
        lemma_after_fill(d1, i);
        lemma_fill_reads_ahead_only(d1, d2, i);
        let j = after_fill(d1, i);
        let k = j + 1;
        if j < d1.len() {
            let m = d1[j];
            if is_bare(m) {
                lemma_walk_reads_ahead_only(d1, d2, k, dims);
            } else {
                match len_at(d1, k) {
                    Some(n) => {
                        if k + n <= d1.len() && !(is_sof(m) && n < 7) {
                            lemma_entropy_end(d1, k + n);
                            lemma_entropy_reads_ahead_only(d1, d2, k + n);
                            let e = entropy_end(d1, k + n);
                            if e + 1 < d1.len() {
                                lemma_walk_reads_ahead_only(d1, d2, e, dims);
                            }
                            lemma_walk_reads_ahead_only(d1, d2, k + n, dims);
                            if is_sof(m) {
                                lemma_walk_reads_ahead_only(
                                    d1,
                                    d2,
                                    k + n,
                                    frame_dims(d1, k, dims),
                                );
                            }
                        }
                    },
                    None => {},
                }
            }
        }
    }
}

proof fn lemma_fill_reads_ahead_only(d1: Seq<u8>, d2: Seq<u8>, i: int)
    requires
        0 <= i,
        d1.len() == d2.len(),
        forall|j: int| i <= j < d1.len() ==> d1[j] == d2[j],
    ensures
        after_fill(d1, i) == after_fill(d2, i),
    decreases d1.len() - i,
{
    if i < d1.len() && d1[i] == 0xff {
        lemma_fill_reads_ahead_only(d1, d2, i + 1);
    }
}

proof fn lemma_entropy_reads_ahead_only(d1: Seq<u8>, d2: Seq<u8>, i: int)
    requires
        0 <= i,
        d1.len() == d2.len(),
        forall|j: int| i <= j < d1.len() ==> d1[j] == d2[j],
    ensures
        entropy_end(d1, i) == entropy_end(d2, i),
    decreases d1.len() - i,
{
    if i + 1 < d1.len() {
        if d1[i] != 0xff {
            lemma_entropy_reads_ahead_only(d1, d2, i + 1);
        } else if d1[i + 1] == 0x00 || is_rst(d1[i + 1]) {
            lemma_entropy_reads_ahead_only(d1, d2, i + 2);
        }
    }
}

/// An application segment (the EXIF block is one) is opaque: two files that
/// differ only inside the payload of such a segment are read alike from its
/// marker on. So a thumbnail stored in there, end marker and all, never ends the
/// picture around it.
pub proof fn law_application_payload_is_opaque(
    d1: Seq<u8>,
    d2: Seq<u8>,
    i: int,
    dims: (nat, nat),
)
    requires
        0 <= i,
        i + 4 <= d1.len(),
        d1.len() == d2.len(),
        d1[i] == 0xff,
        0xe0 <= d1[i + 1] <= 0xef,
        be16(d1[i + 2], d1[i + 3]) >= 2,
        i + 2 + be16(d1[i + 2], d1[i + 3]) <= d1.len(),
        forall|j: int|
            i <= j < d1.len() && !(i + 4 <= j < i + 2 + be16(d1[i + 2], d1[i + 3])) ==> d1[j]
                == d2[j],
    ensures
        walk(d1, i, dims) == walk(d2, i, dims),
        walk(d1, i, dims) == walk(d1, i + 2 + be16(d1[i + 2], d1[i + 3]), dims),
{
    let n = be16(d1[i + 2], d1[i + 3]);
    assert(after_fill(d1, i) == i + 1) by {
        assert(after_fill(d1, i + 1) == i + 1);
    }
    assert(after_fill(d2, i) == i + 1) by {
        assert(after_fill(d2, i + 1) == i + 1);
    }
    lemma_walk_reads_ahead_only(d1, d2, i + 2 + n, dims);
}

// ---------------------------------------------------------------------------
// What stands around a JPEG
// ---------------------------------------------------------------------------

/// The two hold the same bytes in front of `end`.
pub open spec fn same_until(d1: Seq<u8>, d2: Seq<u8>, end: int) -> bool {
    &&& end <= d1.len()
    &&& end <= d2.len()
    &&& forall|j: int| 0 <= j < end ==> d1[j] == d2[j]
}

proof fn lemma_fill_until(d1: Seq<u8>, d2: Seq<u8>, i: int, end: int)
    requires
        0 <= i,
        same_until(d1, d2, end),
        after_fill(d1, i) < end,
    ensures
        after_fill(d2, i) == after_fill(d1, i),
    decreases d1.len() - i,
{
    lemma_after_fill(d1, i);
    if i < d1.len() && d1[i] == 0xff {
        lemma_fill_until(d1, d2, i + 1, end);
    }
}

proof fn lemma_entropy_until(d1: Seq<u8>, d2: Seq<u8>, i: int, end: int)
    requires
        0 <= i,
        same_until(d1, d2, end),
        entropy_end(d1, i) + 1 < end,
    ensures
        entropy_end(d2, i) == entropy_end(d1, i),
    decreases d1.len() - i,
{
    lemma_entropy_end(d1, i);
    if i + 1 < d1.len() {
        if d1[i] != 0xff {
            lemma_entropy_until(d1, d2, i + 1, end);
        } else if d1[i + 1] == 0x00 || is_rst(d1[i + 1]) {
            lemma_entropy_end(d1, i + 2);
            lemma_entropy_until(d1, d2, i + 2, end);
        }
    }
}

proof fn lemma_walk_until(d1: Seq<u8>, d2: Seq<u8>, i: int, dims: (nat, nat))
    requires
        0 <= i,
        dims.0 <= 0xffff,
        dims.1 <= 0xffff,
        walk(d1, i, dims) is Some,
        same_until(d1, d2, walk(d1, i, dims)->Some_0.0),
    ensures
        walk(d2, i, dims) == walk(d1, i, dims),
    decreases d1.len() - i,
{
    let end = walk(d1, i, dims)->Some_0.0;
    lemma_walk_end(d1, i, dims);
    lemma_after_fill(d1, i);
    let j = after_fill(d1, i);
    let m = d1[j];
    let k = j + 1;
    if is_bare(m) {
        lemma_walk_end(d1, k, dims);
        lemma_fill_until(d1, d2, i, end);
        lemma_walk_until(d1, d2, k, dims);
    } else {
        let n = len_at(d1, k)->Some_0;
        if m == 0xda {
            let e = entropy_end(d1, k + n);
            lemma_entropy_end(d1, k + n);
            if d1[e + 1] != 0xd9 {
                lemma_walk_end(d1, e, dims);
                lemma_fill_until(d1, d2, i, end);
                lemma_entropy_until(d1, d2, k + n, end);
                lemma_walk_until(d1, d2, e, dims);
            } else {
                lemma_fill_until(d1, d2, i, end);
                lemma_entropy_until(d1, d2, k + n, end);
            }
        } else if is_sof(m) {
            let size = frame_dims(d1, k, dims);
            lemma_walk_end(d1, k + n, size);
            lemma_fill_until(d1, d2, i, end);
            assert(frame_dims(d2, k, dims) == size);
            lemma_walk_until(d1, d2, k + n, size);
        } else {
            lemma_walk_end(d1, k + n, dims);
            lemma_fill_until(d1, d2, i, end);
            lemma_walk_until(d1, d2, k + n, dims);
        }
    }
}

/// What stands behind the end marker of a JPEG does not change how it is read.
pub proof fn law_bytes_behind_the_end_change_nothing(d: Seq<u8>, tail: Seq<u8>)
    requires
        jpeg_at_start(d) is Some,
    ensures
        jpeg_at_start(d.take(jpeg_at_start(d)->Some_0.0) + tail) == jpeg_at_start(d),
{
    lemma_walk_end(d, 2, (0, 0));
    let end = jpeg_at_start(d)->Some_0.0;
    let other = d.take(end) + tail;
    assert forall|j: int| 0 <= j < end implies d[j] == other[j] by {}
    lemma_walk_until(d, other, 2, (0, 0));
}

/// A JPEG that stands `by` bytes further on.
pub open spec fn moved(s: JpegSpan, by: nat) -> JpegSpan {
    JpegSpan { start: (s.start + by) as usize, end: (s.end + by) as usize, ..s }
}

proof fn lemma_jpegs_moved(front: Seq<u8>, d: Seq<u8>, i: int)
    requires
        0 <= i <= d.len(),
        front.len() + d.len() <= usize::MAX,
    ensures
        jpegs_from(front + d, front.len() + i) == jpegs_from(d, i).map_values(
            |s: JpegSpan| moved(s, front.len()),
        ),
    decreases d.len() - i,
{
    let all = front + d;
    let at = front.len() + i;
    let shift = |s: JpegSpan| moved(s, front.len());
    if i + 3 < d.len() {
        assert(all.skip(at) =~= d.skip(i));
        assert(starts_jpeg(all, at) == starts_jpeg(d, i));
        if starts_jpeg(d, i) && jpeg_at_start(d.skip(i)) is Some {
            lemma_walk_end(d.skip(i), 2, (0, 0));
            let (e, w, h) = jpeg_at_start(d.skip(i))->Some_0;
            lemma_jpegs_moved(front, d, i + e);
            assert(front.len() + (i + e) == at + e);
            assert(jpegs_from(all, at) =~= jpegs_from(d, i).map_values(shift));
        } else {
            lemma_jpegs_moved(front, d, i + 1);
            assert(front.len() + (i + 1) == at + 1);
        }
    } else {
        assert(jpegs_from(all, at) =~= jpegs_from(d, i).map_values(shift));
    }
}

proof fn lemma_front_has_none(front: Seq<u8>, d: Seq<u8>, i: int)
    requires
        0 <= i <= front.len(),
        forall|j: int| 0 <= j < front.len() ==> front[j] != 0xff,
    ensures
        jpegs_from(front + d, i) == jpegs_from(front + d, front.len() as int),
    decreases front.len() - i,
{
    let all = front + d;
    if i < front.len() {
        lemma_front_has_none(front, d, i + 1);
        assert(all[i] == front[i]);
        if i + 3 >= all.len() {
            assert(jpegs_from(all, front.len() as int) =~= jpegs_from(all, i));
        }
    }
}

/// Bytes in front that hold no FF only move the JPEGs that stand behind them.
pub proof fn law_bytes_in_front_only_move(front: Seq<u8>, d: Seq<u8>)
    requires
        front.len() + d.len() <= usize::MAX,
        forall|j: int| 0 <= j < front.len() ==> front[j] != 0xff,
    ensures
        jpegs(front + d) == jpegs(d).map_values(|s: JpegSpan| moved(s, front.len())),
{
    lemma_front_has_none(front, d, 0);
    lemma_jpegs_moved(front, d, 0);
}

} // verus!
