//! Finding closed eyes: the parts that need no model.
//!
//! A model finds the faces and the outlines of the eyes, and gives floating-point
//! numbers. Here is what is decided on them.
use vstd::prelude::*;

use crate::image_io::{decode_jpeg, decoded, rgb_of, to_rgb, PictureModel};
use crate::picture::RgbBuf;
use crate::preview::{
    best_jpeg_bytes,
    fitting_jpeg_bytes,
    is_best,
    is_fitting,
    jpegs,
    span_bytes,
    JpegSpan,
};

verus! {

/// The side of the square that the face model takes.
pub const DET_SIZE: u32 = 640;

/// The side of the square that the eye model takes.
pub const LMK_SIZE: u32 = 256;

/// At most this many faces of a photo are looked at.
pub const MAX_FACES: usize = 12;

/// Photos are looked at with this longest side.
pub const WORK_SIZE: u32 = 1280;

/// A preview with a side below this shows no eyes.
pub const MIN_SIDE: u32 = 320;

/// How many photos are looked at before the results are written.
pub const BLINK_BATCH: usize = 32;

// ---------------------------------------------------------------------------
// Faces found twice
// ---------------------------------------------------------------------------

/// Box `i` overlaps too much with one of the boxes in `kept`.
pub open spec fn overlaps_any(overlap: Seq<Vec<bool>>, i: int, kept: Seq<usize>) -> bool {
    exists|k: int| 0 <= k < kept.len() && overlap[i]@[(#[trigger] kept[k]) as int]
}

/// Which of the first `n` boxes are kept, best first: a box is dropped where it
/// overlaps too much with one that is kept, or where enough are kept already.
pub open spec fn kept_of(overlap: Seq<Vec<bool>>, n: int) -> Seq<usize>
    decreases n,
{
    if n <= 0 {
        Seq::empty()
    } else {
        let before = kept_of(overlap, n - 1);
        if before.len() >= MAX_FACES || overlaps_any(overlap, n - 1, before) {
            before
        } else {
            before.push((n - 1) as usize)
        }
    }
}

/// For each box, given best first, says of every earlier box whether the two overlap
/// too much.
pub open spec fn is_overlap_table(overlap: Seq<Vec<bool>>) -> bool {
    forall|i: int| 0 <= i < overlap.len() ==> (#[trigger] overlap[i])@.len() >= i
}

proof fn lemma_kept(overlap: Seq<Vec<bool>>, n: int)
    requires
        0 <= n <= overlap.len(),
        overlap.len() <= usize::MAX,
    ensures
        kept_of(overlap, n).len() <= MAX_FACES,
        forall|k: int| 0 <= k < kept_of(overlap, n).len() ==> (#[trigger] kept_of(overlap, n)[k]) < n,
        forall|a: int, b: int|
            0 <= a < b < kept_of(overlap, n).len() ==> {
                &&& (#[trigger] kept_of(overlap, n)[a]) < (#[trigger] kept_of(overlap, n)[b])
                &&& !overlap[kept_of(overlap, n)[b] as int]@[kept_of(overlap, n)[a] as int]
            },
    decreases n,
{
    if n > 0 {
        lemma_kept(overlap, n - 1);
    }
}

/// Keeps one box for each face, the best one, and no more than the limit. Neighbouring
/// cells of the model find the same face again and again.
pub fn nms(overlap: &Vec<Vec<bool>>) -> (r: Vec<usize>)
    requires
        is_overlap_table(overlap@),
    ensures
        r@ == kept_of(overlap@, overlap@.len() as int),
{
    let n: usize = overlap.len();
    let mut kept: Vec<usize> = Vec::new();
    for i in 0..n
        invariant
            n == overlap@.len(),
            is_overlap_table(overlap@),
            kept@ == kept_of(overlap@, i as int),
    {
        proof {
            lemma_kept(overlap@, i as int);
            assert(overlap@[i as int]@.len() >= i);
        }
        let row = &overlap[i];
        let mut hit = false;
        for k in 0..kept.len()
            invariant
                i < overlap@.len(),
                row@ == overlap@[i as int]@,
                row@.len() >= i,
                forall|j: int| 0 <= j < kept@.len() ==> (#[trigger] kept@[j]) < i,
                hit == exists|j: int| 0 <= j < k && overlap@[i as int]@[(#[trigger] kept@[j]) as int],
        {
            assert(kept@[k as int] < i);
            if row[kept[k]] {
                hit = true;
            }
        }
        if kept.len() < MAX_FACES && !hit {
            kept.push(i);
        }
    }
    kept
}

/// No two boxes that are kept overlap too much, and no more are kept than the limit.
pub proof fn law_kept_boxes_do_not_overlap(overlap: Seq<Vec<bool>>, a: int, b: int)
    requires
        overlap.len() <= usize::MAX,
        0 <= a < b < kept_of(overlap, overlap.len() as int).len(),
    ensures
        kept_of(overlap, overlap.len() as int).len() <= MAX_FACES,
        !overlap[kept_of(overlap, overlap.len() as int)[b] as int]@[kept_of(
            overlap,
            overlap.len() as int,
        )[a] as int],
{
    lemma_kept(overlap, overlap.len() as int);
    let k = kept_of(overlap, overlap.len() as int);
    assert(k[a] < k[b]);
}

/// The best box is always kept.
pub proof fn law_best_box_is_kept(overlap: Seq<Vec<bool>>, n: int)
    requires
        1 <= n <= overlap.len(),
    ensures
        kept_of(overlap, n).len() >= 1,
        kept_of(overlap, n)[0] == 0,
    decreases n,
{
    if n > 1 {
        law_best_box_is_kept(overlap, n - 1);
    } else {
        assert(kept_of(overlap, 0).len() == 0);
    }
}

// ---------------------------------------------------------------------------
// The picture to look at
// ---------------------------------------------------------------------------

/// Large enough to see eyes in it.
pub open spec fn large_enough(w: int, h: int) -> bool {
    w >= MIN_SIDE && h >= MIN_SIDE
}

/// The bytes of the smallest preview that is as large as photos are looked at; none
/// where there is none.
pub open spec fn fitting_bytes(d: Seq<u8>, s: Option<JpegSpan>) -> Option<Seq<u8>> {
    match s {
        Some(b) => Some(span_bytes(d, b)),
        None => None,
    }
}

/// The picture in some bytes, if there are any and they can be decoded.
pub open spec fn picture_in(bytes: Option<Seq<u8>>) -> Option<PictureModel> {
    match bytes {
        Some(b) => decoded(b),
        None => None,
    }
}

/// The picture to look at: the fitting preview, or else the best one where it is large
/// enough.
pub open spec fn picture_to_see(
    d: Seq<u8>,
    fitting: Option<JpegSpan>,
    best: Option<JpegSpan>,
) -> Option<PictureModel> {
    match picture_in(fitting_bytes(d, fitting)) {
        Some(p) => Some(p),
        None => match picture_in(fitting_bytes(d, best)) {
            Some(p) if large_enough(p.width as int, p.height as int) => Some(p),
            _ => None,
        },
    }
}

/// `r` holds the pixels of a picture in colour.
pub open spec fn is_rgb_of(r: Option<RgbBuf>, p: Option<PictureModel>) -> bool {
    match p {
        Some(p) => r matches Some(b) && b.wf() && b.width == p.width && b.height == p.height
            && b.data@ == rgb_of(p),
        None => r is None,
    }
}

/// The preview in the content of a file in colour: the smallest one that is as large as
/// photos are looked at, since it is decoded fastest, or else the largest, where it
/// shows enough. Otherwise the file has to be decoded as a whole.
pub fn preview_rgb(data: &[u8]) -> (r: Option<RgbBuf>)
    ensures
        exists|fitting: Option<JpegSpan>, best: Option<JpegSpan>|
            {
                &&& #[trigger] is_fitting(fitting, jpegs(data@), WORK_SIZE)
                &&& #[trigger] is_best(best, jpegs(data@))
                &&& is_rgb_of(r, picture_to_see(data@, fitting, best))
            },
{
    let ghost found = jpegs(data@);
    let bytes = fitting_jpeg_bytes(data, WORK_SIZE);
    let ghost fitting = choose|s: Option<JpegSpan>|
        {
            &&& #[trigger] is_fitting(s, found, WORK_SIZE)
            &&& match s {
                Some(b) => bytes is Some && bytes->Some_0@ == span_bytes(data@, b),
                None => bytes is None,
            }
        };
    let best = best_jpeg_bytes(data);
    let ghost largest = if best is Some {
        Some(
            choose|b: JpegSpan|
                #![trigger is_best(Some(b), found)]
                is_best(Some(b), found) && best->Some_0.0@ == data@.subrange(
                    b.start as int,
                    b.end as int,
                ),
        )
    } else {
        None
    };
    assert(is_best(largest, found));
    if let Some(v) = bytes {
        if let Some(img) = decode_jpeg(v.as_slice()) {
            return Some(to_rgb(&img));
        }
    }
    if let Some((v, _)) = best {
        if let Some(img) = decode_jpeg(v.as_slice()) {
            let b = to_rgb(&img);
            if b.width >= MIN_SIDE && b.height >= MIN_SIDE {
                return Some(b);
            }
        }
    }
    None
}

// ---------------------------------------------------------------------------
// A run over the library
// ---------------------------------------------------------------------------

/// What came of looking at a photo.
#[derive(Debug, Clone, Copy, PartialEq, Eq, Structural)]
pub enum EyeOutcome {
    Failed,
    Open,
    Closed,
}

/// How far a run has come.
#[derive(Debug, Clone, Copy, PartialEq, Eq, Structural)]
pub struct BlinkProgress {
    pub done: usize,
    pub total: usize,
    pub closed: usize,
    pub failed: usize,
}

/// What came of a run.
#[derive(Debug, Clone, Copy, PartialEq, Eq, Structural)]
pub struct BlinkSummary {
    pub checked: usize,
    pub closed: usize,
    pub failed: usize,
    /// Photos of the library that are still to be looked at.
    pub remaining: usize,
    /// Whether the run was stopped before its end.
    pub stopped: bool,
    pub elapsed_ms: u64,
}

impl Default for BlinkSummary {
    fn default() -> (r: Self)
        ensures
            r == (BlinkSummary {
                checked: 0,
                closed: 0,
                failed: 0,
                remaining: 0,
                stopped: false,
                elapsed_ms: 0,
            }),
    {
        BlinkSummary {
            checked: 0,
            closed: 0,
            failed: 0,
            remaining: 0,
            stopped: false,
            elapsed_ms: 0,
        }
    }
}

/// The number of photos with an outcome.
pub open spec fn count_of(v: Seq<EyeOutcome>, o: EyeOutcome) -> nat
    decreases v.len(),
{
    if v.len() == 0 {
        0
    } else {
        count_of(v.drop_last(), o) + (if v.last() == o {
            1nat
        } else {
            0
        })
    }
}

/// A run under way.
#[derive(Debug, Clone, Copy, PartialEq, Eq, Structural)]
pub struct BlinkRun {
    pub total: usize,
    pub done: usize,
    pub closed: usize,
    pub failed: usize,
}

impl BlinkRun {
    pub open spec fn wf(self) -> bool {
        self.closed + self.failed <= self.done && self.done <= self.total
    }

    pub fn start(total: usize) -> (r: Self)
        ensures
            r.wf(),
            r == (BlinkRun { total, done: 0, closed: 0, failed: 0 }),
    {
        BlinkRun { total, done: 0, closed: 0, failed: 0 }
    }

    /// Counts a batch.
    pub fn batch(&mut self, outcomes: &Vec<EyeOutcome>) -> (r: BlinkProgress)
        requires
            old(self).wf(),
            old(self).done + outcomes@.len() <= old(self).total,
        ensures
            final(self).wf(),
            *final(self) == (BlinkRun {
                total: old(self).total,
                done: (old(self).done + outcomes@.len()) as usize,
                closed: (old(self).closed + count_of(outcomes@, EyeOutcome::Closed)) as usize,
                failed: (old(self).failed + count_of(outcomes@, EyeOutcome::Failed)) as usize,
            }),
            r == (BlinkProgress {
                done: final(self).done,
                total: final(self).total,
                closed: final(self).closed,
                failed: final(self).failed,
            }),
    {
        let n: usize = outcomes.len();
        let mut closed: usize = 0;
        let mut failed: usize = 0;
        for i in 0..n
            invariant
                n == outcomes@.len(),
                closed + failed <= i,
                closed == count_of(outcomes@.take(i as int), EyeOutcome::Closed),
                failed == count_of(outcomes@.take(i as int), EyeOutcome::Failed),
        {
            proof {
                assert(outcomes@.take(i + 1).drop_last() =~= outcomes@.take(i as int));
            }
            match outcomes[i] {
                EyeOutcome::Closed => {
                    closed = closed + 1;
                },
                EyeOutcome::Failed => {
                    failed = failed + 1;
                },
                EyeOutcome::Open => {},
            }
        }
        assert(outcomes@.take(n as int) =~= outcomes@);
        self.done = self.done + n;
        self.closed = self.closed + closed;
        self.failed = self.failed + failed;
        BlinkProgress { done: self.done, total: self.total, closed: self.closed, failed: self.failed }
    }

    /// What came of the run.
    pub fn summary(&self, remaining: usize, stopped: bool, elapsed_ms: u64) -> (r: BlinkSummary)
        requires
            self.wf(),
        ensures
            r == (BlinkSummary {
                checked: (self.done - self.failed) as usize,
                closed: self.closed,
                failed: self.failed,
                remaining,
                stopped,
                elapsed_ms,
            }),
            r.closed <= r.checked,
    {
        BlinkSummary {
            checked: self.done - self.failed,
            closed: self.closed,
            failed: self.failed,
            remaining,
            stopped,
            elapsed_ms,
        }
    }
}

} // verus!
