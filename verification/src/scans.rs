//! What a scan writes down and counts.
use vstd::prelude::*;

use crate::filepath::{is_under, path_in};
use crate::filter::state_text;
use crate::indexer::{
    is_stale,
    known_rows,
    row_for,
    BatchRow,
    FileStat,
    LiteModel,
    Parsed,
    ScanPhase,
    ScanRun,
    StoredPath,
};
use crate::pairing::{ext_lower_of, kind_of_ext, FileKind};
use crate::text::ascii_lower;
use crate::whereabouts::law_paths_have_the_extension_of_their_file;

verus! {

/// The row for a file holds what is known of it: its path, fingerprint, size, time of
/// change and EXIF data, and whether there is any.
pub proof fn law_rows_hold_what_is_known(
    path: Seq<char>,
    fingerprint: Seq<char>,
    stat: FileStat,
    exif: LiteModel,
)
    ensures
        ({
            let with = row_for(path, fingerprint, stat, Some(exif));
            let without = row_for(path, fingerprint, stat, None);
            &&& with.path == path && without.path == path
            &&& with.fingerprint == fingerprint && without.fingerprint == fingerprint
            &&& with.file_size == stat.file_size && without.file_size == stat.file_size
            &&& with.mtime == stat.mtime && without.mtime == stat.mtime
            &&& with.exif == exif
            &&& with.exif_ok == 1
            &&& without.exif_ok == 0
            &&& without.exif.taken_at is None && without.exif.camera_model is None
            &&& without.exif.camera_serial is None && without.exif.lens is None
            &&& without.exif.iso is None && without.exif.orientation is None
            &&& with.pair_key == without.pair_key
            &&& with.file_kind == without.file_kind
        }),
{
}

/// The kind of a file is told by its extension, in whatever letter case, and written down
/// as `raw`, `jpeg` or `other`.
pub proof fn law_kinds_are_told_by_the_extension(
    dir: Seq<char>,
    stem: Seq<char>,
    ext: Seq<char>,
    fingerprint: Seq<char>,
    stat: FileStat,
    exif: Option<LiteModel>,
)
    requires
        dir.len() > 0,
        stem.len() > 0,
        !stem.contains('/'),
        ext.len() > 0,
        !ext.contains('.'),
        !ext.contains('/'),
    ensures
        ({
            let kind = kind_of_ext(ascii_lower(ext));
            let row = row_for(path_in(dir, stem + seq!['.'] + ext), fingerprint, stat, exif);
            &&& kind == Some(FileKind::Raw) ==> row.file_kind == "raw"@
            &&& kind == Some(FileKind::Jpeg) ==> row.file_kind == "jpeg"@
            &&& kind == Some(FileKind::Other) || kind is None ==> row.file_kind == "other"@
        }),
{
    law_paths_have_the_extension_of_their_file(dir, stem, ext);
    let path = path_in(dir, stem + seq!['.'] + ext);
    assert(ascii_lower(ext_lower_of(path)) =~= ascii_lower(ext));
}

/// A photo has the files that were found with its key: both, or the RAW file alone, or
/// else the JPEG file.
pub proof fn law_photos_tell_their_files(raw: bool, jpg: bool)
    ensures
        ({
            let state = state_text(Some(if raw {
                1i64
            } else {
                0i64
            }), Some(if jpg {
                1i64
            } else {
                0i64
            }));
            &&& raw && jpg ==> state == "both"@
            &&& raw && !jpg ==> state == "rawOnly"@
            &&& !raw ==> state == "jpgOnly"@
        }),
        state_text(None, None) == state_text(Some(0), Some(0)),
{
}

/// A record is dropped only where its file was not seen, and only where it lies in one of
/// the directories that were looked through.
pub proof fn law_seen_files_stay(s: StoredPath, roots: Seq<Seq<char>>, k: int)
    ensures
        s.seen ==> !is_stale(s, roots),
        (forall|i: int| 0 <= i < roots.len() ==> !is_under(s.path@, #[trigger] roots[i]))
            ==> !is_stale(s, roots),
        !s.seen && 0 <= k < roots.len() && is_under(s.path@, roots[k]) ==> is_stale(s, roots),
{
}

/// A file that could not be read counts as failed, one that is as it was as unchanged, and
/// each counts in no other way; a file that was read waits to be written.
pub proof fn law_outcomes_count_by_kind(run: ScanRun, o: Parsed, known: bool, after: ScanRun)
    requires
        run.wf(),
        run.parsed < run.total,
        run.takes_in(o, known, after),
    ensures
        ({
            let a = run.summary;
            let b = after.summary;
            &&& b.failed == a.failed + (if o is Failed {
                1int
            } else {
                0int
            })
            &&& b.unchanged == a.unchanged + (if o is Unchanged {
                1int
            } else {
                0int
            })
            &&& b.inserted == a.inserted && b.updated == a.updated
            &&& after.batch@.len() == run.batch@.len() + (if o is Fresh {
                1int
            } else {
                0int
            })
        }),
{
}

proof fn lemma_known(b: Seq<BatchRow>, known: bool)
    requires
        forall|i: int| 0 <= i < b.len() ==> (#[trigger] b[i]).known == known,
    ensures
        known_rows(b) == (if known {
            b.len()
        } else {
            0
        }),
    decreases b.len(),
{
    if b.len() > 0 {
        let r = b.drop_last();
        assert forall|i: int| 0 <= i < r.len() implies (#[trigger] r[i]).known == known by {
            assert(r[i] == b[i]);
        }
        lemma_known(r, known);
        assert(b.last() == b[b.len() - 1]);
    }
}

proof fn lemma_known_split(a: Seq<BatchRow>, b: Seq<BatchRow>)
    ensures
        known_rows(a + b) == known_rows(a) + known_rows(b),
    decreases b.len(),
{
    if b.len() == 0 {
        assert(a + b =~= a);
    } else {
        lemma_known_split(a, b.drop_last());
        assert((a + b).drop_last() =~= a + b.drop_last());
        assert((a + b).last() == b.last());
    }
}

/// Rows whose file was on record count as updated, and the others as inserted.
pub proof fn law_known_files_are_updated(
    run: ScanRun,
    after: ScanRun,
    before: Seq<BatchRow>,
    new: Seq<BatchRow>,
)
    requires
        run.wf(),
        run.hands_out(after),
        run.batch@ == before + new,
        forall|i: int| 0 <= i < before.len() ==> (#[trigger] before[i]).known,
        forall|i: int| 0 <= i < new.len() ==> !(#[trigger] new[i]).known,
    ensures
        after.summary.updated == run.summary.updated + before.len(),
        after.summary.inserted == run.summary.inserted + new.len(),
        after.written == run.written + before.len() + new.len(),
        after.batch@.len() == 0,
        after.summary.failed == run.summary.failed,
        after.summary.unchanged == run.summary.unchanged,
{
    lemma_known_split(before, new);
    lemma_known(before, true);
    lemma_known(new, false);
}

/// A phase of a scan is reported under its own name, and never as further than it is.
pub proof fn law_phases_are_reported_by_name(total: usize)
    ensures
        ScanPhase::Walking.shown(total).0 == "walking"@,
        ScanPhase::Parsing.shown(total) == ("parsing"@, 0usize, total),
        ScanPhase::Writing.shown(total) == ("writing"@, total, total),
        ScanPhase::Stats.shown(total).0 == "stats"@,
        forall|p: ScanPhase| (#[trigger] p.shown(total)).1 <= p.shown(total).2,
{
}

} // verus!
