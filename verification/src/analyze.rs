//! Judging the picture: how sharp it is, and how much of it is blown out or black.
//!
//! The numbers here are the sums that the judgement is made of; they are whole
//! numbers, and the last step divides them.
use vstd::prelude::*;

use crate::image_io::{
    decode_jpeg,
    decoded,
    gray_of,
    picture,
    resize,
    resized,
    to_gray,
    GrayBuf,
    PictureModel,
};
use crate::indexer::{is_under_any, under_any};
use crate::preview::{best_jpeg_bytes, is_best, jpegs, JpegSpan};
use crate::text::views;

verus! {

/// The picture is judged at this size. Sharpness shows in the contrast of edges, for
/// which it is enough.
pub const WORK_SIZE: u32 = 256;

/// How many photos are judged before the results are written.
pub const ANALYZE_BATCH: usize = 100;

/// The sums over a picture: those of the edges (count, sum and sum of squares of
/// the Laplacian), and the numbers of all pixels, of blown-out ones and of black
/// ones.
#[derive(Debug, Clone, Copy, PartialEq, Eq, Structural)]
pub struct Metrics {
    pub edges: u64,
    pub edge_sum: i64,
    pub edge_squares: u64,
    pub pixels: u64,
    pub overexposed: u64,
    pub underexposed: u64,
}

pub open spec fn no_metrics() -> Metrics {
    Metrics {
        edges: 0,
        edge_sum: 0,
        edge_squares: 0,
        pixels: 0,
        overexposed: 0,
        underexposed: 0,
    }
}

impl Default for Metrics {
    fn default() -> (r: Self)
        ensures
            r == no_metrics(),
    {
        Metrics {
            edges: 0,
            edge_sum: 0,
            edge_squares: 0,
            pixels: 0,
            overexposed: 0,
            underexposed: 0,
        }
    }
}

/// The grey value in column `x` and row `y`.
pub open spec fn gray_at(d: Seq<u8>, w: int, x: int, y: int) -> int {
    d[y * w + x] as int
}

/// Four times the pixel less its four neighbours: zero where the picture is flat.
pub open spec fn laplacian(d: Seq<u8>, w: int, x: int, y: int) -> int {
    4 * gray_at(d, w, x, y) - gray_at(d, w, x - 1, y) - gray_at(d, w, x + 1, y) - gray_at(
        d,
        w,
        x,
        y - 1,
    ) - gray_at(d, w, x, y + 1)
}

/// The sum of the Laplacian over the columns `1..x1` of a row.
pub open spec fn lap_row(d: Seq<u8>, w: int, y: int, x1: int) -> int
    decreases x1,
{
    if x1 <= 1 {
        0
    } else {
        lap_row(d, w, y, x1 - 1) + laplacian(d, w, x1 - 1, y)
    }
}

/// The sum of the Laplacian over the rows `1..y1`, without the outermost columns.
pub open spec fn lap_sum(d: Seq<u8>, w: int, y1: int) -> int
    decreases y1,
{
    if y1 <= 1 {
        0
    } else {
        lap_sum(d, w, y1 - 1) + lap_row(d, w, y1 - 1, w - 1)
    }
}

pub open spec fn square(v: int) -> int {
    v * v
}

/// The sum of the squares of the Laplacian over the columns `1..x1` of a row.
pub open spec fn lap_sq_row(d: Seq<u8>, w: int, y: int, x1: int) -> int
    decreases x1,
{
    if x1 <= 1 {
        0
    } else {
        lap_sq_row(d, w, y, x1 - 1) + square(laplacian(d, w, x1 - 1, y))
    }
}

/// The sum of the squares of the Laplacian over the rows `1..y1`.
pub open spec fn lap_sq_sum(d: Seq<u8>, w: int, y1: int) -> int
    decreases y1,
{
    if y1 <= 1 {
        0
    } else {
        lap_sq_sum(d, w, y1 - 1) + lap_sq_row(d, w, y1 - 1, w - 1)
    }
}

/// The number of pixels that are nearly white.
pub open spec fn over_count(d: Seq<u8>) -> nat
    decreases d.len(),
{
    if d.len() == 0 {
        0
    } else {
        over_count(d.drop_last()) + (if d.last() >= 250 {
            1nat
        } else {
            0
        })
    }
}

/// The number of pixels that are nearly black.
pub open spec fn under_count(d: Seq<u8>) -> nat
    decreases d.len(),
{
    if d.len() == 0 {
        0
    } else {
        under_count(d.drop_last()) + (if d.last() <= 5 {
            1nat
        } else {
            0
        })
    }
}

/// The sums over a grey picture; nothing is said of one with less than three pixels
/// a side.
pub open spec fn metrics_in(d: Seq<u8>, w: int, h: int) -> Metrics {
    if w < 3 || h < 3 {
        no_metrics()
    } else {
        Metrics {
            edges: ((w - 2) * (h - 2)) as u64,
            edge_sum: lap_sum(d, w, h - 1) as i64,
            edge_squares: lap_sq_sum(d, w, h - 1) as u64,
            pixels: (w * h) as u64,
            overexposed: over_count(d) as u64,
            underexposed: under_count(d) as u64,
        }
    }
}

proof fn lemma_lap_bound(d: Seq<u8>, w: int, x: int, y: int)
    ensures
        -1020 <= laplacian(d, w, x, y) <= 1020,
        0 <= square(laplacian(d, w, x, y)) <= 1040400,
{
    let v = laplacian(d, w, x, y);
    assert(0 <= v * v <= 1040400) by (nonlinear_arith)
        requires
            -1020 <= v <= 1020,
    ;
}

proof fn lemma_row_bounds(d: Seq<u8>, w: int, y: int, x1: int)
    requires
        1 <= x1,
    ensures
        -1020 * (x1 - 1) <= lap_row(d, w, y, x1) <= 1020 * (x1 - 1),
        0 <= lap_sq_row(d, w, y, x1) <= 1040400 * (x1 - 1),
    decreases x1,
{
    if x1 > 1 {
        lemma_row_bounds(d, w, y, x1 - 1);
        lemma_lap_bound(d, w, x1 - 1, y);
    }
}

proof fn lemma_sum_bounds(d: Seq<u8>, w: int, y1: int)
    requires
        1 <= y1,
        2 <= w <= 4096,
    ensures
        -4177920 * (y1 - 1) <= lap_sum(d, w, y1) <= 4177920 * (y1 - 1),
        0 <= lap_sq_sum(d, w, y1) <= 4261478400 * (y1 - 1),
    decreases y1,
{
    if y1 > 1 {
        lemma_sum_bounds(d, w, y1 - 1);
        lemma_row_bounds(d, w, y1 - 1, w - 1);
    }
}

proof fn lemma_gray_index(w: int, h: int, x: int, y: int)
    requires
        0 <= x < w,
        0 <= y < h,
    ensures
        0 <= y * w + x < w * h,
{
    assert(0 <= y * w && y * w + x < w * h) by (nonlinear_arith)
        requires
            0 <= x < w,
            0 <= y < h,
    ;
}

/// The sums over the edges of a picture: their number, sum and squares.
fn laplacian_sums(g: &GrayBuf) -> (r: (u64, i64, u64))
    requires
        g.wf(),
        3 <= g.width <= 4096,
        3 <= g.height <= 4096,
    ensures
        r.0 == (g.width - 2) * (g.height - 2),
        r.1 == lap_sum(g.data@, g.width as int, g.height - 1),
        r.2 == lap_sq_sum(g.data@, g.width as int, g.height - 1),
{
    let w: usize = g.width as usize;
    let h: usize = g.height as usize;
    let ghost d = g.data@;
    let ghost gw = w as int;
    let mut sum: i64 = 0;
    let mut squares: u64 = 0;
    for y in 1..h - 1
        invariant
            g.wf(),
            d == g.data@,
            w == g.width,
            h == g.height,
            gw == w,
            3 <= w <= 4096,
            3 <= h <= 4096,
            sum == lap_sum(d, gw, y as int),
            squares == lap_sq_sum(d, gw, y as int),
    {
        let mut row: i64 = 0;
        let mut row_sq: u64 = 0;
        for x in 1..w - 1
            invariant
                g.wf(),
                d == g.data@,
                w == g.width,
                h == g.height,
                gw == w,
                3 <= w <= 4096,
                3 <= h <= 4096,
                1 <= y < h - 1,
                row == lap_row(d, gw, y as int, x as int),
                row_sq == lap_sq_row(d, gw, y as int, x as int),
        {
            proof {
                let gh = h as int;
                lemma_gray_index(gw, gh, x as int, y as int);
                lemma_gray_index(gw, gh, x - 1, y as int);
                lemma_gray_index(gw, gh, x + 1, y as int);
                lemma_gray_index(gw, gh, x as int, y - 1);
                lemma_gray_index(gw, gh, x as int, y + 1);
                assert((y - 1) * gw == y * gw - gw) by (nonlinear_arith);
                assert((y + 1) * gw == y * gw + gw) by (nonlinear_arith);
                assert(y * w <= 4096 * 4096) by (nonlinear_arith)
                    requires
                        0 <= y <= 4096,
                        0 <= w <= 4096,
                ;
                assert(gw <= y * gw) by (nonlinear_arith)
                    requires
                        1 <= y,
                        0 <= gw,
                ;
                lemma_lap_bound(d, gw, x as int, y as int);
                lemma_row_bounds(d, gw, y as int, x as int);
            }
            let i: usize = y * w + x;
            let v: i64 = 4 * g.data[i] as i64 - g.data[i - 1] as i64 - g.data[i + 1] as i64
                - g.data[i - w] as i64 - g.data[i + w] as i64;
            assert(v == laplacian(d, gw, x as int, y as int));
            assert(0 <= v * v <= 1040400) by (nonlinear_arith)
                requires
                    -1020 <= v <= 1020,
            ;
            row = row + v;
            row_sq = row_sq + (v * v) as u64;
        }
        proof {
            lemma_sum_bounds(d, gw, y as int);
            lemma_row_bounds(d, gw, y as int, gw - 1);
        }
        sum = sum + row;
        squares = squares + row_sq;
    }
    assert((w - 2) * (h - 2) <= 4096 * 4096) by (nonlinear_arith)
        requires
            1 <= w - 2 <= 4096,
            1 <= h - 2 <= 4096,
    ;
    ((w as u64 - 2) * (h as u64 - 2), sum, squares)
}

proof fn lemma_counts_bounded(d: Seq<u8>)
    ensures
        over_count(d) + under_count(d) <= d.len(),
    decreases d.len(),
{
    if d.len() > 0 {
        lemma_counts_bounded(d.drop_last());
    }
}

proof fn lemma_flat_rows(d: Seq<u8>, w: int, h: int, v: u8, y: int, x1: int)
    requires
        3 <= w,
        3 <= h,
        d.len() == w * h,
        forall|i: int| 0 <= i < d.len() ==> d[i] == v,
        1 <= y < h - 1,
        1 <= x1 <= w - 1,
    ensures
        lap_row(d, w, y, x1) == 0,
        lap_sq_row(d, w, y, x1) == 0,
    decreases x1,
{
    if x1 > 1 {
        lemma_flat_rows(d, w, h, v, y, x1 - 1);
        let x = x1 - 1;
        lemma_gray_index(w, h, x, y);
        lemma_gray_index(w, h, x - 1, y);
        lemma_gray_index(w, h, x + 1, y);
        lemma_gray_index(w, h, x, y - 1);
        lemma_gray_index(w, h, x, y + 1);
        assert(laplacian(d, w, x, y) == 0);
    }
}

proof fn lemma_flat_sums(d: Seq<u8>, w: int, h: int, v: u8, y1: int)
    requires
        3 <= w,
        3 <= h,
        d.len() == w * h,
        forall|i: int| 0 <= i < d.len() ==> d[i] == v,
        1 <= y1 <= h - 1,
    ensures
        lap_sum(d, w, y1) == 0,
        lap_sq_sum(d, w, y1) == 0,
    decreases y1,
{
    if y1 > 1 {
        lemma_flat_sums(d, w, h, v, y1 - 1);
        lemma_flat_rows(d, w, h, v, y1 - 1, w - 1);
    }
}

/// A picture of one colour has no edges, and so the least sharpness there is.
pub proof fn law_flat_pictures_have_no_edges(d: Seq<u8>, w: int, h: int, v: u8)
    requires
        3 <= w,
        3 <= h,
        d.len() == w * h,
        forall|i: int| 0 <= i < d.len() ==> d[i] == v,
    ensures
        metrics_in(d, w, h).edge_sum == 0,
        metrics_in(d, w, h).edge_squares == 0,
{
    lemma_flat_sums(d, w, h, v, h - 1);
}

/// No pixel is both blown out and black.
pub proof fn law_exposure_counts_are_disjoint(d: Seq<u8>)
    ensures
        over_count(d) + under_count(d) <= d.len(),
{
    lemma_counts_bounded(d);
}

/// The sums over a grey picture.
pub fn measure_gray(g: &GrayBuf) -> (r: Metrics)
    requires
        g.wf(),
        g.width <= 4096,
        g.height <= 4096,
    ensures
        r == metrics_in(g.data@, g.width as int, g.height as int),
{
    if g.width < 3 || g.height < 3 {
        return Metrics::default();
    }
    let (edges, edge_sum, edge_squares) = laplacian_sums(g);
    let mut over: u64 = 0;
    let mut under: u64 = 0;
    let n: usize = g.data.len();
    for i in 0..n
        invariant
            n == g.data@.len(),
            over == over_count(g.data@.take(i as int)),
            under == under_count(g.data@.take(i as int)),
    {
        proof {
            assert(g.data@.take(i + 1).drop_last() =~= g.data@.take(i as int));
            lemma_counts_bounded(g.data@.take(i as int));
        }
        let p: u8 = g.data[i];
        if p >= 250 {
            over = over + 1;
        } else if p <= 5 {
            under = under + 1;
        }
    }
    assert(g.data@.take(n as int) =~= g.data@);
    assert(g.width as int * g.height as int <= 4096 * 4096) by (nonlinear_arith)
        requires
            0 <= g.width <= 4096,
            0 <= g.height <= 4096,
    ;
    Metrics {
        edges,
        edge_sum,
        edge_squares,
        pixels: g.width as u64 * g.height as u64,
        overexposed: over,
        underexposed: under,
    }
}

/// `m` holds the sums over a picture in grey, at the size at which pictures are
/// judged.
pub open spec fn is_metrics_of(m: Metrics, p: PictureModel) -> bool {
    let small = resized(p, WORK_SIZE, WORK_SIZE);
    exists|g: GrayBuf|
        {
            &&& #[trigger] g.wf()
            &&& g.width == small.width
            &&& g.height == small.height
            &&& exists|fused: bool| g.data@ == #[trigger] gray_of(small, fused)
            &&& m == metrics_in(g.data@, g.width as int, g.height as int)
        }
}

/// The sums over a picture.
pub fn measure(img: &image::DynamicImage) -> (r: Metrics)
    ensures
        is_metrics_of(r, picture(*img)),
{
    let small = resize(img, WORK_SIZE, WORK_SIZE);
    let g = to_gray(&small);
    let m = measure_gray(&g);
    assert(g.wf());
    m
}

/// Why a photo cannot be judged.
#[derive(Debug, Clone, Copy, PartialEq, Eq, Structural)]
pub enum MetricsError {
    /// There is no preview in the file.
    NoPreview,
    /// The preview cannot be decoded.
    Undecodable,
}

/// The preview that a photo is judged by: the bytes of the best JPEG in its content.
pub open spec fn is_preview(data: Seq<u8>, bytes: Seq<u8>) -> bool {
    exists|b: JpegSpan|
        #![trigger is_best(Some(b), jpegs(data))]
        is_best(Some(b), jpegs(data)) && bytes == data.subrange(b.start as int, b.end as int)
}

/// Judges a photo, from the content of its file, by the preview in it.
pub fn metrics_for(data: &[u8]) -> (r: Result<Metrics, MetricsError>)
    ensures
        match r {
            Err(MetricsError::NoPreview) => is_best(None, jpegs(data@)),
            Err(MetricsError::Undecodable) => exists|bytes: Seq<u8>|
                #![trigger is_preview(data@, bytes)]
                is_preview(data@, bytes) && decoded(bytes) is None,
            Ok(m) => exists|bytes: Seq<u8>|
                #![trigger is_preview(data@, bytes)]
                is_preview(data@, bytes) && decoded(bytes) is Some && is_metrics_of(
                    m,
                    decoded(bytes)->Some_0,
                ),
        },
{
    match best_jpeg_bytes(data) {
        None => Err(MetricsError::NoPreview),
        Some((bytes, _)) => {
            assert(is_preview(data@, bytes@));
            match decode_jpeg(bytes.as_slice()) {
                Some(img) => Ok(measure(&img)),
                None => Err(MetricsError::Undecodable),
            }
        },
    }
}

// ---------------------------------------------------------------------------
// A run over the library
// ---------------------------------------------------------------------------

/// A photo to judge.
#[derive(Debug, Clone)]
pub struct Target {
    pub id: i64,
    pub path: String,
}

/// Everything is in scope where no directory is given.
pub open spec fn in_scope(path: Seq<char>, roots: Seq<Seq<char>>) -> bool {
    roots.len() == 0 || under_any(path, roots)
}

/// The photos in the given directories, in their order.
pub open spec fn targets_in(rows: Seq<Target>, roots: Seq<Seq<char>>) -> Seq<(i64, Seq<char>)>
    decreases rows.len(),
{
    if rows.len() == 0 {
        Seq::empty()
    } else {
        let rest = targets_in(rows.drop_last(), roots);
        if in_scope(rows.last().path@, roots) {
            rest.push((rows.last().id, rows.last().path@))
        } else {
            rest
        }
    }
}

pub open spec fn targets_view(t: Seq<Target>) -> Seq<(i64, Seq<char>)> {
    t.map_values(|x: Target| (x.id, x.path@))
}

/// The photos to judge: those in the given directories.
pub fn pending_targets(rows: &Vec<Target>, roots: &Vec<String>) -> (r: Vec<Target>)
    ensures
        targets_view(r@) == targets_in(rows@, views(roots@)),
{
    let mut out: Vec<Target> = Vec::new();
    assert(targets_view(out@) =~= targets_in(rows@.take(0), views(roots@)));
    for i in 0..rows.len()
        invariant
            targets_view(out@) == targets_in(rows@.take(i as int), views(roots@)),
    {
        proof {
            assert(rows@.take(i + 1).drop_last() =~= rows@.take(i as int));
        }
        let row = &rows[i];
        if roots.len() == 0 || is_under_any(row.path.as_str(), roots) {
            let t = Target { id: row.id, path: row.path.clone() };
            let ghost before = targets_view(out@);
            out.push(t);
            assert(targets_view(out@) =~= before.push((row.id, row.path@)));
        }
    }
    assert(rows@.take(rows@.len() as int) =~= rows@);
    out
}

/// How far a run has come.
#[derive(Debug, Clone, Copy, PartialEq, Eq, Structural)]
pub struct AnalyzeProgress {
    pub done: usize,
    pub total: usize,
}

/// What came of a run.
#[derive(Debug, Clone, Copy, PartialEq, Eq, Structural)]
pub struct AnalyzeSummary {
    pub analyzed: usize,
    pub failed: usize,
    /// Photos of the library that are still to be judged.
    pub remaining: usize,
    pub elapsed_ms: u64,
}

/// A run under way.
#[derive(Debug, Clone, Copy, PartialEq, Eq, Structural)]
pub struct AnalyzeRun {
    pub total: usize,
    pub done: usize,
    pub failed: usize,
}

/// The number of photos of a batch that could not be judged.
pub open spec fn failures(ok: Seq<bool>) -> nat
    decreases ok.len(),
{
    if ok.len() == 0 {
        0
    } else {
        failures(ok.drop_last()) + (if ok.last() {
            0nat
        } else {
            1
        })
    }
}

impl AnalyzeRun {
    pub open spec fn wf(self) -> bool {
        self.failed <= self.done <= self.total
    }

    pub fn start(total: usize) -> (r: Self)
        ensures
            r.wf(),
            r == (AnalyzeRun { total, done: 0, failed: 0 }),
    {
        AnalyzeRun { total, done: 0, failed: 0 }
    }

    /// Counts a batch; `ok` says of each photo whether it could be judged.
    pub fn batch(&mut self, ok: &Vec<bool>) -> (r: AnalyzeProgress)
        requires
            old(self).wf(),
            old(self).done + ok@.len() <= old(self).total,
        ensures
            final(self).wf(),
            *final(self) == (AnalyzeRun {
                total: old(self).total,
                done: (old(self).done + ok@.len()) as usize,
                failed: (old(self).failed + failures(ok@)) as usize,
            }),
            r == (AnalyzeProgress { done: final(self).done, total: final(self).total }),
    {
        let n: usize = ok.len();
        let mut bad: usize = 0;
        for i in 0..n
            invariant
                n == ok@.len(),
                bad <= i,
                bad == failures(ok@.take(i as int)),
        {
            proof {
                assert(ok@.take(i + 1).drop_last() =~= ok@.take(i as int));
            }
            if !ok[i] {
                bad = bad + 1;
            }
        }
        assert(ok@.take(n as int) =~= ok@);
        self.done = self.done + n;
        self.failed = self.failed + bad;
        AnalyzeProgress { done: self.done, total: self.total }
    }

    /// What came of the run, once it is through.
    pub fn summary(&self, remaining: usize, elapsed_ms: u64) -> (r: AnalyzeSummary)
        requires
            self.wf(),
        ensures
            r == (AnalyzeSummary {
                analyzed: (self.total - self.failed) as usize,
                failed: self.failed,
                remaining,
                elapsed_ms,
            }),
    {
        AnalyzeSummary {
            analyzed: self.total - self.failed,
            failed: self.failed,
            remaining,
            elapsed_ms,
        }
    }
}

// ---------------------------------------------------------------------------
// What the sums mean
// ---------------------------------------------------------------------------

/// A picture with black for white and white for black.
pub open spec fn inverted(d: Seq<u8>) -> Seq<u8> {
    d.map_values(|v: u8| (255 - v) as u8)
}

/// A pixel is blown out from 250 on and black up to 5, whatever else is in the picture;
/// and the darkest pixels of a picture are the brightest of its negative.
pub proof fn law_exposure_is_judged_alike(d: Seq<u8>, v: u8)
    ensures
        over_count(d.push(v)) == over_count(d) + (if v >= 250 {
            1int
        } else {
            0
        }),
        under_count(d.push(v)) == under_count(d) + (if v <= 5 {
            1int
        } else {
            0
        }),
        over_count(inverted(d)) == under_count(d),
        under_count(inverted(d)) == over_count(d),
    decreases d.len(),
{
    assert(d.push(v).drop_last() =~= d);
    if d.len() > 0 {
        law_exposure_is_judged_alike(d.drop_last(), d.last());
        assert(inverted(d).drop_last() =~= inverted(d.drop_last()));
        assert(inverted(d).last() == (255 - d.last()) as u8);
    }
}

/// Edges are differences: they stay as they are when all of a picture gets brighter, and
/// only change their sign in its negative. The four neighbours count alike.
pub proof fn law_edges_are_differences(a: Seq<u8>, b: Seq<u8>, w: int, h: int, x: int, y: int, c: int)
    requires
        3 <= w,
        3 <= h,
        a.len() == w * h,
        b.len() == w * h,
        0 < x < w - 1,
        0 < y < h - 1,
    ensures
        (forall|i: int| 0 <= i < w * h ==> #[trigger] b[i] == a[i] + c) ==> laplacian(b, w, x, y)
            == laplacian(a, w, x, y),
        laplacian(inverted(a), w, x, y) == -laplacian(a, w, x, y),
        laplacian(a, w, x, y) == (gray_at(a, w, x, y) - gray_at(a, w, x - 1, y)) + (gray_at(
            a,
            w,
            x,
            y,
        ) - gray_at(a, w, x + 1, y)) + (gray_at(a, w, x, y) - gray_at(a, w, x, y - 1)) + (gray_at(
            a,
            w,
            x,
            y,
        ) - gray_at(a, w, x, y + 1)),
{
    assert forall|u: int, v: int| 0 <= u < w && 0 <= v < h implies 0 <= #[trigger] (v * w + u) < w
        * h by {
        assert(0 <= v * w && v * w + w <= w * h) by (nonlinear_arith)
            requires
                0 <= v < h,
                3 <= w,
        ;
    }
    let at = y * w + x;
    assert(0 <= at < w * h);
    assert(0 <= y * w + (x - 1) < w * h);
    assert(0 <= y * w + (x + 1) < w * h);
    assert(0 <= (y - 1) * w + x < w * h);
    assert(0 <= (y + 1) * w + x < w * h);
    let n = inverted(a);
    assert(n[at] == (255 - a[at]) as u8);
}

proof fn lemma_count_at_most(d: Seq<u8>)
    ensures
        over_count(d) <= d.len(),
        under_count(d) <= d.len(),
        (forall|i: int| 0 <= i < d.len() ==> #[trigger] d[i] >= 250) ==> over_count(d) == d.len()
            && under_count(d) == 0,
        (forall|i: int| 0 <= i < d.len() ==> #[trigger] d[i] <= 5) ==> under_count(d) == d.len()
            && over_count(d) == 0,
    decreases d.len(),
{
    if d.len() > 0 {
        let r = d.drop_last();
        lemma_count_at_most(r);
        assert forall|i: int| 0 <= i < r.len() implies r[i] == #[trigger] d[i] by {}
        if forall|i: int| 0 <= i < d.len() ==> #[trigger] d[i] >= 250 {
            assert forall|i: int| 0 <= i < r.len() implies #[trigger] r[i] >= 250 by {
                assert(r[i] == d[i]);
            }
        }
        if forall|i: int| 0 <= i < d.len() ==> #[trigger] d[i] <= 5 {
            assert forall|i: int| 0 <= i < r.len() implies #[trigger] r[i] <= 5 by {
                assert(r[i] == d[i]);
            }
        }
    }
}

/// A white picture is blown out all over and nowhere black, and a black one the other way
/// round. Edges are looked for at every pixel but the outermost.
pub proof fn law_white_is_overexposed_and_black_underexposed(d: Seq<u8>, w: int, h: int)
    requires
        3 <= w <= 4096,
        3 <= h <= 4096,
        d.len() == w * h,
    ensures
        ({
            let m = metrics_in(d, w, h);
            &&& m.pixels == w * h
            &&& m.edges == w * h - 2 * w - 2 * h + 4
            &&& (forall|i: int| 0 <= i < d.len() ==> #[trigger] d[i] >= 250) ==> m.overexposed
                == m.pixels && m.underexposed == 0
            &&& (forall|i: int| 0 <= i < d.len() ==> #[trigger] d[i] <= 5) ==> m.underexposed
                == m.pixels && m.overexposed == 0
        }),
        forall|a: int, b: int|
            a < 3 || b < 3 ==> (#[trigger] metrics_in(d, a, b)).pixels == 0 && metrics_in(
                d,
                a,
                b,
            ).edges == 0,
{
    lemma_count_at_most(d);
    assert(0 < w * h <= 4096 * 4096) by (nonlinear_arith)
        requires
            3 <= w <= 4096,
            3 <= h <= 4096,
    ;
    assert((w - 2) * (h - 2) == w * h - 2 * w - 2 * h + 4) by (nonlinear_arith);
    assert(0 <= (w - 2) * (h - 2) <= w * h) by (nonlinear_arith)
        requires
            3 <= w,
            3 <= h,
    ;
}

/// Sums over a picture start at nothing and take in each inner pixel of a row, and each
/// inner row, once.
pub proof fn law_edges_are_summed_once(d: Seq<u8>, w: int, x: int, y: int)
    requires
        1 <= x,
        1 <= y,
    ensures
        lap_row(d, w, y, x + 1) - lap_row(d, w, y, x) == laplacian(d, w, x, y),
        lap_sq_row(d, w, y, x + 1) - lap_sq_row(d, w, y, x) == laplacian(d, w, x, y) * laplacian(
            d,
            w,
            x,
            y,
        ),
        lap_sum(d, w, y + 1) - lap_sum(d, w, y) == lap_row(d, w, y, w - 1),
        lap_sq_sum(d, w, y + 1) - lap_sq_sum(d, w, y) == lap_sq_row(d, w, y, w - 1),
        lap_row(d, w, y, 1) == 0 && lap_sq_row(d, w, y, 1) == 0,
        lap_sum(d, w, 1) == 0 && lap_sq_sum(d, w, 1) == 0,
{
}

} // verus!
