//! Indexing a photo folder: which files count, which of them have to be read
//! again, what is kept of each, and how a scan runs.
//!
//! A scan first looks at size and time of change only. A file is read, and
//! fingerprinted, where one of these differs from what is recorded.
use vstd::prelude::*;

use crate::datetime::{exif_seconds, parse_exif_datetime};
use crate::exif_detail::{exif_field, exif_tag, tiff_field, tiff_tag};
use crate::exif_doc::{
    ascii_in,
    container_fields,
    ratio_in,
    read_doc,
    DocModel,
    ExifDoc,
    ExifError,
    ExifValue,
    Ratio,
    Tag,
    TagGroup,
    ValueModel,
};
use crate::filepath::{file_name, is_under, name_of, path_under};
use crate::pairing::{classify, ext_lower, ext_lower_of, key_of, kind_of_ext, pair_key, FileKind};
use crate::text::{ascii_lower, opt_view, same, sort_strings, sorted_texts, views};

verus! {

/// How many bytes at the start of a file go into its fingerprint.
pub const FINGERPRINT_HEAD_BYTES: usize = 1024 * 1024;

/// How many files are written to the library at a time.
pub const BATCH: usize = 200;

/// After how many files the progress is reported.
pub const PROGRESS_STEP: usize = 250;

// ---------------------------------------------------------------------------
// What is kept of a file's EXIF data
// ---------------------------------------------------------------------------

/// An exposure time, in the form in which it is shown: as one over a whole number
/// where it is less than a second, else in seconds.
#[derive(Debug, Clone, Copy, PartialEq, Eq, Structural)]
pub enum Shutter {
    OneOver(Ratio),
    Seconds(Ratio),
}

/// The quotient lies between zero and one.
pub open spec fn is_fraction(q: Ratio) -> bool {
    q.positive() && match q {
        Ratio::Unsigned(n, d) => n < d,
        Ratio::Signed(n, d) => vstd::math::abs(n as int) < vstd::math::abs(d as int),
    }
}

/// The form of an exposure time; one that cannot be read counts as zero.
pub open spec fn shutter_form(v: ValueModel) -> Shutter {
    let q = match ratio_in(v) {
        Some(q) => q,
        None => Ratio::Unsigned(0, 1),
    };
    if is_fraction(q) {
        Shutter::OneOver(q)
    } else {
        Shutter::Seconds(q)
    }
}

fn shutter_of(v: &ExifValue) -> (r: Shutter)
    ensures
        r == shutter_form(v@),
{
    let q = match v.ratio() {
        Some(q) => q,
        None => Ratio::Unsigned(0, 1),
    };
    let below = match q {
        Ratio::Unsigned(n, d) => n < d,
        Ratio::Signed(n, d) => {
            let a: i64 = if n < 0 {
                -(n as i64)
            } else {
                n as i64
            };
            let b: i64 = if d < 0 {
                -(d as i64)
            } else {
                d as i64
            };
            a < b
        },
    };
    if q.is_positive() && below {
        Shutter::OneOver(q)
    } else {
        Shutter::Seconds(q)
    }
}

/// The EXIF data that is recorded for every file.
#[derive(Debug, Clone)]
pub struct ExifLite {
    pub taken_at: Option<i64>,
    pub camera_model: Option<String>,
    pub camera_serial: Option<String>,
    pub lens: Option<String>,
    pub focal_len: Option<Ratio>,
    pub aperture: Option<Ratio>,
    pub shutter: Option<Shutter>,
    pub iso: Option<i64>,
    pub orientation: Option<i64>,
    pub width: Option<i64>,
    pub height: Option<i64>,
}

/// What an `ExifLite` holds.
pub struct LiteModel {
    pub taken_at: Option<i64>,
    pub camera_model: Option<Seq<char>>,
    pub camera_serial: Option<Seq<char>>,
    pub lens: Option<Seq<char>>,
    pub focal_len: Option<Ratio>,
    pub aperture: Option<Ratio>,
    pub shutter: Option<Shutter>,
    pub iso: Option<i64>,
    pub orientation: Option<i64>,
    pub width: Option<i64>,
    pub height: Option<i64>,
}

impl View for ExifLite {
    type V = LiteModel;

    open spec fn view(&self) -> LiteModel {
        LiteModel {
            taken_at: self.taken_at,
            camera_model: opt_view(self.camera_model),
            camera_serial: opt_view(self.camera_serial),
            lens: opt_view(self.lens),
            focal_len: self.focal_len,
            aperture: self.aperture,
            shutter: self.shutter,
            iso: self.iso,
            orientation: self.orientation,
            width: self.width,
            height: self.height,
        }
    }
}

/// No EXIF data at all.
pub open spec fn blank_lite() -> LiteModel {
    LiteModel {
        taken_at: None,
        camera_model: None,
        camera_serial: None,
        lens: None,
        focal_len: None,
        aperture: None,
        shutter: None,
        iso: None,
        orientation: None,
        width: None,
        height: None,
    }
}

impl Default for ExifLite {
    fn default() -> (r: Self)
        ensures
            r@ == blank_lite(),
    {
        ExifLite {
            taken_at: None,
            camera_model: None,
            camera_serial: None,
            lens: None,
            focal_len: None,
            aperture: None,
            shutter: None,
            iso: None,
            orientation: None,
            width: None,
            height: None,
        }
    }
}

pub open spec fn widened(v: Option<u32>) -> Option<i64> {
    match v {
        Some(x) => Some(x as i64),
        None => None,
    }
}

fn widen(v: Option<u32>) -> (r: Option<i64>)
    ensures
        r == widened(v),
{
    match v {
        Some(x) => Some(x as i64),
        None => None,
    }
}

/// The capture time: that of the shot, or where the file has no such field, that
/// of the digitisation.
pub open spec fn taken_at_in(doc: DocModel) -> Option<i64> {
    let field = match doc.get(exif_tag(0x9003)) {
        Some(v) => Some(v),
        None => doc.get(exif_tag(0x9004)),
    };
    match field {
        Some(v) => match ascii_in(v) {
            Some(s) => exif_seconds(s),
            None => None,
        },
        None => None,
    }
}

fn taken_at_of(doc: &ExifDoc) -> (r: Option<i64>)
    ensures
        r == taken_at_in(doc@),
{
    let field = match doc.get(exif_field(0x9003)) {
        Some(v) => Some(v),
        None => doc.get(exif_field(0x9004)),
    };
    match field {
        Some(v) => match v.ascii() {
            Some(s) => parse_exif_datetime(s.as_str()),
            None => None,
        },
        None => None,
    }
}

/// What is recorded of the EXIF fields of a file.
pub open spec fn lite_in(doc: DocModel) -> LiteModel {
    LiteModel {
        taken_at: taken_at_in(doc),
        camera_model: doc.ascii(tiff_tag(0x0110)),
        camera_serial: doc.ascii(exif_tag(0xa431)),
        lens: doc.ascii(exif_tag(0xa434)),
        focal_len: doc.ratio(exif_tag(0x920a)),
        aperture: doc.ratio(exif_tag(0x829d)),
        shutter: match doc.get(exif_tag(0x829a)) {
            Some(v) => Some(shutter_form(v)),
            None => None,
        },
        iso: match doc.uint(exif_tag(0x8827)) {
            Some(v) => Some(v as i64),
            None => widened(doc.uint(exif_tag(0x8833))),
        },
        orientation: widened(doc.uint(tiff_tag(0x0112))),
        width: widened(doc.uint(exif_tag(0xa002))),
        height: widened(doc.uint(exif_tag(0xa003))),
    }
}

pub fn lite_of(doc: &ExifDoc) -> (r: ExifLite)
    ensures
        r@ == lite_in(doc@),
        r@.camera_model == doc@.ascii(Tag { group: TagGroup::Tiff, number: 0x0110 }),
        r@.camera_serial == doc@.ascii(Tag { group: TagGroup::Exif, number: 0xa431 }),
        r@.lens == doc@.ascii(Tag { group: TagGroup::Exif, number: 0xa434 }),
        r@.focal_len == doc@.ratio(Tag { group: TagGroup::Exif, number: 0x920a }),
        r@.aperture == doc@.ratio(Tag { group: TagGroup::Exif, number: 0x829d }),
        r@.shutter is Some <==> doc@.get(Tag { group: TagGroup::Exif, number: 0x829a }) is Some,
        r@.orientation == widened(doc@.uint(Tag { group: TagGroup::Tiff, number: 0x0112 })),
        r@.width == widened(doc@.uint(Tag { group: TagGroup::Exif, number: 0xa002 })),
        r@.height == widened(doc@.uint(Tag { group: TagGroup::Exif, number: 0xa003 })),
{
    ExifLite {
        taken_at: taken_at_of(doc),
        camera_model: doc.ascii(tiff_field(0x0110)),
        camera_serial: doc.ascii(exif_field(0xa431)),
        lens: doc.ascii(exif_field(0xa434)),
        focal_len: doc.ratio(exif_field(0x920a)),
        aperture: doc.ratio(exif_field(0x829d)),
        shutter: match doc.get(exif_field(0x829a)) {
            Some(v) => Some(shutter_of(v)),
            None => None,
        },
        iso: match doc.uint(exif_field(0x8827)) {
            Some(v) => Some(v as i64),
            None => widen(doc.uint(exif_field(0x8833))),
        },
        orientation: widen(doc.uint(tiff_field(0x0112))),
        width: widen(doc.uint(exif_field(0xa002))),
        height: widen(doc.uint(exif_field(0xa003))),
    }
}

/// Reads what is recorded of the EXIF data in the content of a file.
pub fn read_exif(data: &[u8]) -> (r: Result<ExifLite, ExifError>)
    ensures
        match container_fields(data@) {
            None => r == Err::<ExifLite, ExifError>(ExifError::Unreadable),
            Some(fields) => r is Ok && r->Ok_0@ == lite_in(DocModel { fields, version: None }),
        },
{
    match read_doc(data) {
        Ok(doc) => {
            let ghost bare = DocModel { fields: doc@.fields, version: None };
            assert(lite_in(doc@) == lite_in(bare));
            Ok(lite_of(&doc))
        },
        Err(e) => Err(e),
    }
}

// ---------------------------------------------------------------------------
// Which files to read
// ---------------------------------------------------------------------------

/// Whether a file is a picture that the library takes.
pub fn is_candidate(path: &str) -> (r: bool)
    ensures
        r == kind_of_ext(ascii_lower(ext_lower_of(path@))) is Some,
{
    let e = ext_lower(path);
    classify(e.as_str()).is_some()
}

/// What is recorded of a file that was indexed before.
#[derive(Debug, Clone)]
pub struct KnownFile {
    pub fingerprint: String,
    pub file_size: i64,
    pub mtime: i64,
}

/// Size and time of change, as the file system gives them.
#[derive(Debug, Clone, Copy, PartialEq, Eq, Structural)]
pub struct FileStat {
    pub file_size: i64,
    pub mtime: i64,
}

/// What a first look at a file says.
#[derive(Debug, Clone, Copy, PartialEq, Eq, Structural)]
pub enum FirstLook {
    /// The file could not be looked at.
    Failed,
    /// Size and time of change are those on record.
    Unchanged,
    /// The file has to be read.
    Read(FileStat),
}

/// What a first look says, by size and time of change alone.
pub open spec fn look(known: Option<FileStat>, stat: Option<FileStat>) -> FirstLook {
    match stat {
        None => FirstLook::Failed,
        Some(s) => if known == Some(s) {
            FirstLook::Unchanged
        } else {
            FirstLook::Read(s)
        },
    }
}

/// Size and time of change on record.
pub open spec fn stat_on_record(known: Option<&KnownFile>) -> Option<FileStat> {
    match known {
        Some(k) => Some(FileStat { file_size: k.file_size, mtime: k.mtime }),
        None => None,
    }
}

/// Judges a file by size and time of change alone, so that scanning again a
/// library in which nothing changed reads no file.
pub fn first_look(known: Option<&KnownFile>, stat: Option<FileStat>) -> (r: FirstLook)
    ensures
        r == look(stat_on_record(known), stat),
{
    match (known, stat) {
        (_, None) => FirstLook::Failed,
        (Some(k), Some(s)) if k.file_size == s.file_size && k.mtime == s.mtime =>
            FirstLook::Unchanged,
        (_, Some(s)) => FirstLook::Read(s),
    }
}

/// A file that was indexed, and neither changed nor touched since, is not read
/// again.
pub proof fn law_unchanged_files_are_not_read(
    path: Seq<char>,
    fingerprint: Seq<char>,
    stat: FileStat,
    exif: Option<LiteModel>,
)
    ensures
        ({
            let row = row_for(path, fingerprint, stat, exif);
            look(Some(FileStat { file_size: row.file_size, mtime: row.mtime }), Some(stat))
                == FirstLook::Unchanged
        }),
{
}

/// Whether a fingerprint is the one on record.
pub fn same_content(known: Option<&KnownFile>, fingerprint: &str) -> (r: bool)
    ensures
        r == (known is Some && known->Some_0.fingerprint@ == fingerprint@),
{
    match known {
        Some(k) => same(k.fingerprint.as_str(), fingerprint),
        None => false,
    }
}

/// One row of the library.
#[derive(Debug, Clone)]
pub struct PhotoRow {
    pub path: String,
    pub fingerprint: String,
    pub pair_key: String,
    pub file_kind: String,
    pub file_size: i64,
    pub mtime: i64,
    pub exif: ExifLite,
    /// 1 where the EXIF data could be read, else 0.
    pub exif_ok: i64,
}

/// What a `PhotoRow` holds.
pub struct RowModel {
    pub path: Seq<char>,
    pub fingerprint: Seq<char>,
    pub pair_key: Seq<char>,
    pub file_kind: Seq<char>,
    pub file_size: i64,
    pub mtime: i64,
    pub exif: LiteModel,
    pub exif_ok: i64,
}

impl View for PhotoRow {
    type V = RowModel;

    open spec fn view(&self) -> RowModel {
        RowModel {
            path: self.path@,
            fingerprint: self.fingerprint@,
            pair_key: self.pair_key@,
            file_kind: self.file_kind@,
            file_size: self.file_size,
            mtime: self.mtime,
            exif: self.exif@,
            exif_ok: self.exif_ok,
        }
    }
}

/// The row for a file: its kind by its extension, its pair key (a file without one
/// stands alone under its path), and its EXIF data where it has any. A file whose
/// EXIF data cannot be read is kept all the same.
pub open spec fn row_for(
    path: Seq<char>,
    fingerprint: Seq<char>,
    stat: FileStat,
    exif: Option<LiteModel>,
) -> RowModel {
    RowModel {
        path,
        fingerprint,
        pair_key: match key_of(path) {
            Some(k) => k,
            None => path,
        },
        file_kind: match kind_of_ext(ascii_lower(ext_lower_of(path))) {
            Some(k) => k.label(),
            None => FileKind::Other.label(),
        },
        file_size: stat.file_size,
        mtime: stat.mtime,
        exif: match exif {
            Some(e) => e,
            None => blank_lite(),
        },
        exif_ok: if exif is Some {
            1
        } else {
            0
        },
    }
}

pub open spec fn lite_view(e: Option<ExifLite>) -> Option<LiteModel> {
    match e {
        Some(x) => Some(x@),
        None => None,
    }
}

pub fn fresh_row(
    path: &str,
    fingerprint: String,
    stat: FileStat,
    exif: Option<ExifLite>,
) -> (r: PhotoRow)
    ensures
        r@ == row_for(path@, fingerprint@, stat, lite_view(exif)),
{
    let ext = ext_lower(path);
    let kind = match classify(ext.as_str()) {
        Some(k) => k,
        None => FileKind::Other,
    };
    let key = match pair_key(path) {
        Some(k) => k,
        None => path.to_string(),
    };
    let exif_ok: i64 = if exif.is_some() {
        1
    } else {
        0
    };
    let exif = match exif {
        Some(e) => e,
        None => ExifLite::default(),
    };
    PhotoRow {
        path: path.to_string(),
        fingerprint,
        pair_key: key,
        file_kind: kind.as_str().to_string(),
        file_size: stat.file_size,
        mtime: stat.mtime,
        exif,
        exif_ok,
    }
}

/// What came of one file.
#[derive(Debug, Clone)]
pub enum Parsed {
    Unchanged(String),
    Fresh(PhotoRow),
    Failed(String),
}

/// What came of a file that was read: `head` is what it starts with, none where it
/// could not be opened.
pub open spec fn read_outcome(
    path: Seq<char>,
    known: Option<KnownFile>,
    stat: FileStat,
    head: Option<Seq<u8>>,
    exif: Option<LiteModel>,
    r: Parsed,
) -> bool {
    match head {
        None => r matches Parsed::Failed(p) && p@ == path,
        Some(h) => {
            let fp = crate::hash::fingerprint_text(
                crate::hash::twos(stat.file_size as int) as u64,
                stat.mtime,
                h,
            );
            if known is Some && known->Some_0.fingerprint@ == fp {
                r matches Parsed::Unchanged(p) && p@ == path
            } else {
                r matches Parsed::Fresh(row) && row@ == row_for(path, fp, stat, exif)
            }
        },
    }
}

/// The fingerprint of a file that was opened.
pub fn fingerprint_of(stat: FileStat, head: &[u8]) -> (r: String)
    ensures
        r@ == crate::hash::fingerprint_text(
            crate::hash::twos(stat.file_size as int) as u64,
            stat.mtime,
            head@,
        ),
{
    crate::hash::fingerprint(crate::hash::to_unsigned(stat.file_size), stat.mtime, head)
}

/// Judges a file that was read, by its fingerprint, and makes its row where the
/// content is new.
pub fn parse_one(
    path: &str,
    known: Option<&KnownFile>,
    stat: FileStat,
    head: Option<&[u8]>,
    exif: Option<ExifLite>,
) -> (r: Parsed)
    ensures
        read_outcome(
            path@,
            match known {
                Some(k) => Some(*k),
                None => None,
            },
            stat,
            match head {
                Some(h) => Some(h@),
                None => None,
            },
            lite_view(exif),
            r,
        ),
{
    let h = match head {
        Some(h) => h,
        None => return Parsed::Failed(path.to_string()),
    };
    let fp = fingerprint_of(stat, h);
    if same_content(known, fp.as_str()) {
        return Parsed::Unchanged(path.to_string());
    }
    Parsed::Fresh(fresh_row(path, fp, stat, exif))
}

// ---------------------------------------------------------------------------
// Clock differences between cameras
// ---------------------------------------------------------------------------

/// By how many seconds the clock of a camera is off. A positive number means that it
/// is fast, so that its times have to be set back.
#[derive(Debug, Clone)]
pub struct BodyOffset {
    pub serial: String,
    pub seconds: i64,
}

/// How fast the clock of the camera with a serial number is; the last entry counts.
pub open spec fn offset_in(offsets: Seq<BodyOffset>, serial: Seq<char>) -> i64
    decreases offsets.len(),
{
    if offsets.len() == 0 {
        0
    } else if offsets.last().serial@ == serial {
        offsets.last().seconds
    } else {
        offset_in(offsets.drop_last(), serial)
    }
}

fn offset_of(offsets: &Vec<BodyOffset>, serial: &str) -> (r: i64)
    ensures
        r == offset_in(offsets@, serial@),
{
    let mut i: usize = offsets.len();
    proof {
        assert(offsets@.take(i as int) =~= offsets@);
    }
    while i > 0
        invariant
            i <= offsets@.len(),
            offset_in(offsets@, serial@) == offset_in(offsets@.take(i as int), serial@),
        decreases i,
    {
        if same(offsets[i - 1].serial.as_str(), serial) {
            return offsets[i - 1].seconds;
        }
        proof {
            assert(offsets@.take(i as int).drop_last() =~= offsets@.take(i - 1));
        }
        i = i - 1;
    }
    0
}

/// How fast the clock was that a file has its time from.
pub open spec fn clock_error(exif: LiteModel, offsets: Seq<BodyOffset>) -> int {
    match exif.camera_serial {
        Some(s) => offset_in(offsets, s) as int,
        None => 0,
    }
}

/// By how many seconds the capture time of a file has to be set back.
pub fn clock_error_of(exif: &ExifLite, offsets: &Vec<BodyOffset>) -> (r: i64)
    ensures
        r == clock_error(exif@, offsets@),
{
    match &exif.camera_serial {
        Some(s) => offset_of(offsets, s.as_str()),
        None => 0,
    }
}

/// The capture time with the camera's clock set right. Files of a camera without
/// an entry keep their time.
pub fn corrected_time(exif: &ExifLite, offsets: &Vec<BodyOffset>) -> (r: Option<i64>)
    requires
        exif.taken_at matches Some(t) ==> i64::MIN <= t - clock_error(exif@, offsets@) <= i64::MAX,
    ensures
        r == match exif.taken_at {
            Some(t) => Some((t - clock_error(exif@, offsets@)) as i64),
            None => None,
        },
{
    let off: i64 = clock_error_of(exif, offsets);
    match exif.taken_at {
        Some(t) => Some(t - off),
        None => None,
    }
}

/// A camera whose clock is off by a known number of seconds gives the true times: a
/// photo taken at `moment` carries the time that the clock showed, and the
/// correction gives the moment back.
pub proof fn law_corrected_times_are_true(
    exif: LiteModel,
    offsets: Seq<BodyOffset>,
    serial: Seq<char>,
    moment: int,
)
    requires
        exif.camera_serial == Some(serial),
    ensures
        (moment + offset_in(offsets, serial)) - clock_error(exif, offsets) == moment,
{
}

// ---------------------------------------------------------------------------
// A scan
// ---------------------------------------------------------------------------

/// How far a scan has come.
#[derive(Debug, Clone, Copy)]
pub struct ScanProgress {
    /// walking, parsing, writing or stats.
    pub phase: &'static str,
    pub done: usize,
    pub total: usize,
}

impl ScanProgress {
    pub fn new(phase: &'static str, done: usize, total: usize) -> (r: Self)
        ensures
            r.phase@ == phase@,
            r.done == done,
            r.total == total,
    {
        ScanProgress { phase, done, total }
    }
}

/// What a scan is about.
#[derive(Debug, Clone, Copy, PartialEq, Eq, Structural)]
pub enum ScanPhase {
    /// Looking for files.
    Walking,
    /// Reading them.
    Parsing,
    /// Writing rows. Rows are also written while files are still read.
    Writing,
    /// Dropping what is gone, and counting.
    Stats,
}

impl ScanPhase {
    /// The phase that follows, in a scan that found `total` files.
    pub open spec fn following(self, total: usize) -> Option<ScanPhase> {
        match self {
            ScanPhase::Walking => if total == 0 {
                Some(ScanPhase::Stats)
            } else {
                Some(ScanPhase::Parsing)
            },
            ScanPhase::Parsing => Some(ScanPhase::Writing),
            ScanPhase::Writing => Some(ScanPhase::Stats),
            ScanPhase::Stats => None,
        }
    }

    pub fn next(self, total: usize) -> (r: Option<ScanPhase>)
        ensures
            r == self.following(total),
    {
        match self {
            ScanPhase::Walking => if total == 0 {
                Some(ScanPhase::Stats)
            } else {
                Some(ScanPhase::Parsing)
            },
            ScanPhase::Parsing => Some(ScanPhase::Writing),
            ScanPhase::Writing => Some(ScanPhase::Stats),
            ScanPhase::Stats => None,
        }
    }

    /// What is reported of a phase of a scan of `total` files: its name, and how far
    /// it is.
    pub open spec fn shown(self, total: usize) -> (Seq<char>, usize, usize) {
        match self {
            ScanPhase::Walking => ("walking"@, 0, 0),
            ScanPhase::Parsing => ("parsing"@, 0, total),
            ScanPhase::Writing => ("writing"@, total, total),
            ScanPhase::Stats => ("stats"@, 0, 1),
        }
    }

    pub fn report(self, total: usize) -> (r: ScanProgress)
        ensures
            (r.phase@, r.done, r.total) == self.shown(total),
    {
        match self {
            ScanPhase::Walking => ScanProgress::new("walking", 0, 0),
            ScanPhase::Parsing => ScanProgress::new("parsing", 0, total),
            ScanPhase::Writing => ScanProgress::new("writing", total, total),
            ScanPhase::Stats => ScanProgress::new("stats", 0, 1),
        }
    }
}

/// The phases of a scan from one on.
pub open spec fn phases_from(phase: ScanPhase, total: usize) -> Seq<ScanPhase>
    decreases
        match phase {
            ScanPhase::Walking => 3int,
            ScanPhase::Parsing => 2,
            ScanPhase::Writing => 1,
            ScanPhase::Stats => 0,
        },
{
    match phase.following(total) {
        Some(next) => seq![phase] + phases_from(next, total),
        None => seq![phase],
    }
}

/// A scan starts with walking and ends with the counts; where it found files, it reads
/// and writes in between.
pub proof fn law_phases_in_order(total: usize)
    ensures
        phases_from(ScanPhase::Walking, total) == if total == 0 {
            seq![ScanPhase::Walking, ScanPhase::Stats]
        } else {
            seq![ScanPhase::Walking, ScanPhase::Parsing, ScanPhase::Writing, ScanPhase::Stats]
        },
{
    reveal_with_fuel(phases_from, 4);
    assert(phases_from(ScanPhase::Walking, total) =~= if total == 0 {
        seq![ScanPhase::Walking, ScanPhase::Stats]
    } else {
        seq![ScanPhase::Walking, ScanPhase::Parsing, ScanPhase::Writing, ScanPhase::Stats]
    });
}

/// What a scan found.
#[derive(Debug, Clone, Copy, PartialEq, Eq, Structural)]
pub struct ScanSummary {
    /// Picture files on the disk.
    pub scanned: usize,
    /// Files that are as they were recorded.
    pub unchanged: usize,
    pub inserted: usize,
    pub updated: usize,
    /// Records dropped because their file is gone.
    pub removed: usize,
    /// Files that could not be looked at or opened.
    pub failed: usize,
    /// Shots, each with one file or more.
    pub pairs: usize,
    /// Shots with a RAW file and no JPEG file.
    pub orphan_raw: usize,
    /// Shots with a JPEG file and no RAW file.
    pub orphan_jpg: usize,
    /// Recorded files without readable EXIF data.
    pub exif_failed: usize,
    pub elapsed_ms: u128,
}

pub open spec fn zero_summary() -> ScanSummary {
    ScanSummary {
        scanned: 0,
        unchanged: 0,
        inserted: 0,
        updated: 0,
        removed: 0,
        failed: 0,
        pairs: 0,
        orphan_raw: 0,
        orphan_jpg: 0,
        exif_failed: 0,
        elapsed_ms: 0,
    }
}

impl Default for ScanSummary {
    fn default() -> (r: Self)
        ensures
            r == zero_summary(),
    {
        ScanSummary {
            scanned: 0,
            unchanged: 0,
            inserted: 0,
            updated: 0,
            removed: 0,
            failed: 0,
            pairs: 0,
            orphan_raw: 0,
            orphan_jpg: 0,
            exif_failed: 0,
            elapsed_ms: 0,
        }
    }
}

/// The reason for which a scan is refused: none of the given directories exists.
pub open spec fn refusal(roots: Seq<Seq<char>>, is_dir: Seq<bool>) -> Option<Seq<char>> {
    if exists|i: int| 0 <= i < is_dir.len() && #[trigger] is_dir[i] {
        None
    } else if roots.len() == 0 {
        Some("目录不存在或不是文件夹："@)
    } else {
        Some("目录不存在或不是文件夹："@ + roots[0])
    }
}

/// Checks the directories to scan; `is_dir` says of each whether it is one.
pub fn scan_refusal(roots: &Vec<String>, is_dir: &Vec<bool>) -> (r: Option<String>)
    requires
        roots@.len() == is_dir@.len(),
    ensures
        opt_view(r) == refusal(views(roots@), is_dir@),
{
    for i in 0..is_dir.len()
        invariant
            forall|j: int| 0 <= j < i ==> !#[trigger] is_dir@[j],
    {
        if is_dir[i] {
            assert(is_dir@[i as int]);
            return None;
        }
    }
    let mut msg = "目录不存在或不是文件夹：".to_string();
    if roots.len() > 0 {
        msg.push_str(roots[0].as_str());
    }
    Some(msg)
}

/// A row waiting to be written, and whether its file was on record before.
#[derive(Debug, Clone)]
pub struct BatchRow {
    pub row: PhotoRow,
    pub known: bool,
}

/// The number of rows whose file was on record before.
pub open spec fn known_rows(b: Seq<BatchRow>) -> nat
    decreases b.len(),
{
    if b.len() == 0 {
        0
    } else {
        known_rows(b.drop_last()) + (if b.last().known {
            1nat
        } else {
            0
        })
    }
}

proof fn lemma_known_rows(b: Seq<BatchRow>)
    ensures
        known_rows(b) <= b.len(),
    decreases b.len(),
{
    if b.len() > 0 {
        lemma_known_rows(b.drop_last());
    }
}

/// A scan under way: what the files so far came to, and the rows that wait to be
/// written. Rows are written in batches, so that what is already in the library
/// can be shown while the scan goes on.
pub struct ScanRun {
    pub total: usize,
    pub parsed: usize,
    pub written: usize,
    pub batch: Vec<BatchRow>,
    pub summary: ScanSummary,
}

/// What is to be done after one file.
pub struct Turn {
    /// The path that was seen on the disk.
    pub seen: String,
    /// The batch is full and has to be written now.
    pub flush: bool,
    /// The progress to report, if any.
    pub progress: Option<ScanProgress>,
}

pub open spec fn path_of(o: Parsed) -> Seq<char> {
    match o {
        Parsed::Unchanged(p) => p@,
        Parsed::Fresh(row) => row.path@,
        Parsed::Failed(p) => p@,
    }
}

impl ScanRun {
    /// Every file so far is counted once: as unchanged, failed, new or changed, or
    /// it waits in the batch.
    pub open spec fn wf(self) -> bool {
        &&& self.parsed <= self.total
        &&& self.summary.scanned == self.total
        &&& self.summary.unchanged + self.summary.failed + self.summary.inserted
            + self.summary.updated + self.batch@.len() == self.parsed
        &&& self.written == self.summary.inserted + self.summary.updated
        &&& self.batch@.len() <= BATCH
    }

    /// The scan has just begun, with `total` files to look at.
    pub open spec fn is_start(self, total: usize) -> bool {
        &&& self.total == total
        &&& self.parsed == 0
        &&& self.written == 0
        &&& self.batch@.len() == 0
        &&& self.summary == (ScanSummary { scanned: total, ..zero_summary() })
    }

    /// What came of one more file makes this scan the scan `after`.
    pub open spec fn takes_in(self, o: Parsed, known: bool, after: ScanRun) -> bool {
        &&& after.total == self.total
        &&& after.parsed == self.parsed + 1
        &&& after.written == self.written
        &&& match o {
            Parsed::Unchanged(_) => {
                &&& after.summary == (ScanSummary {
                    unchanged: (self.summary.unchanged + 1) as usize,
                    ..self.summary
                })
                &&& after.batch@ == self.batch@
            },
            Parsed::Failed(_) => {
                &&& after.summary == (ScanSummary {
                    failed: (self.summary.failed + 1) as usize,
                    ..self.summary
                })
                &&& after.batch@ == self.batch@
            },
            Parsed::Fresh(row) => {
                &&& after.summary == self.summary
                &&& after.batch@ == self.batch@.push(BatchRow { row, known })
            },
        }
    }

    /// Once the rows that wait are handed out, this scan is the scan `after`.
    pub open spec fn hands_out(self, after: ScanRun) -> bool {
        &&& after.total == self.total
        &&& after.parsed == self.parsed
        &&& after.batch@.len() == 0
        &&& after.written == self.written + self.batch@.len()
        &&& after.summary == (ScanSummary {
            updated: (self.summary.updated + known_rows(self.batch@)) as usize,
            inserted: (self.summary.inserted + self.batch@.len() - known_rows(
                self.batch@,
            )) as usize,
            ..self.summary
        })
    }

    /// A scan of `total` files.
    pub fn start(total: usize) -> (r: Self)
        ensures
            r.wf(),
            r.is_start(total),
    {
        let mut summary = ScanSummary::default();
        summary.scanned = total;
        ScanRun { total, parsed: 0, written: 0, batch: Vec::new(), summary }
    }

    /// Takes in what came of one file; `known` says whether it was on record.
    pub fn accept(&mut self, o: Parsed, known: bool) -> (r: Turn)
        requires
            old(self).wf(),
            old(self).parsed < old(self).total,
            old(self).batch@.len() < BATCH,
        ensures
            final(self).wf(),
            old(self).takes_in(o, known, *final(self)),
            r.seen@ == path_of(o),
            r.flush == (final(self).batch@.len() >= BATCH),
            r.progress is Some <==> final(self).parsed % PROGRESS_STEP == 0,
            r.progress matches Some(p) ==> p.phase@ == "parsing"@ && p.done == final(self).parsed
                && p.total == final(self).total,
    {
        let seen = match &o {
            Parsed::Unchanged(p) => p.clone(),
            Parsed::Fresh(row) => row.path.clone(),
            Parsed::Failed(p) => p.clone(),
        };
        match o {
            Parsed::Unchanged(_) => {
                self.summary.unchanged = self.summary.unchanged + 1;
            },
            Parsed::Fresh(row) => {
                self.batch.push(BatchRow { row, known });
            },
            Parsed::Failed(_) => {
                self.summary.failed = self.summary.failed + 1;
            },
        }
        self.parsed = self.parsed + 1;
        let progress = if self.parsed % PROGRESS_STEP == 0 {
            Some(ScanProgress::new("parsing", self.parsed, self.total))
        } else {
            None
        };
        Turn { seen, flush: self.batch.len() >= BATCH, progress }
    }

    /// Hands out the rows that wait, counts them as new or changed, and gives the
    /// progress to report once they are written.
    pub fn flush(&mut self) -> (r: (Vec<BatchRow>, ScanProgress))
        requires
            old(self).wf(),
        ensures
            final(self).wf(),
            old(self).hands_out(*final(self)),
            r.0@ == old(self).batch@,
            r.1.phase@ == "writing"@,
            r.1.done == final(self).written,
            r.1.total == final(self).total,
    {
        let mut rows: Vec<BatchRow> = Vec::new();
        core::mem::swap(&mut rows, &mut self.batch);
        let n: usize = rows.len();
        let ghost b = rows@;
        let mut known: usize = 0;
        for i in 0..n
            invariant
                b == rows@,
                n == b.len(),
                known == known_rows(b.take(i as int)),
                known <= i,
        {
            proof {
                assert(b.take(i + 1).drop_last() =~= b.take(i as int));
            }
            if rows[i].known {
                known = known + 1;
            }
        }
        proof {
            assert(b.take(n as int) =~= b);
            lemma_known_rows(b);
        }
        self.summary.updated = self.summary.updated + known;
        self.summary.inserted = self.summary.inserted + (n - known);
        self.written = self.written + n;
        (rows, ScanProgress::new("writing", self.written, self.total))
    }
}

/// When all files were taken in and no row waits, the counts of a scan add up to
/// the number of files.
pub proof fn law_every_file_is_counted(run: ScanRun)
    requires
        run.wf(),
        run.parsed == run.total,
        run.batch@.len() == 0,
    ensures
        run.summary.scanned == run.summary.unchanged + run.summary.failed + run.summary.inserted
            + run.summary.updated,
{
}

// ---------------------------------------------------------------------------
// Files that are gone
// ---------------------------------------------------------------------------

/// A record, and whether its file was seen by the scan.
#[derive(Debug, Clone)]
pub struct StoredPath {
    pub id: i64,
    pub path: String,
    pub seen: bool,
}

/// The path lies in one of the directories.
pub open spec fn under_any(path: Seq<char>, roots: Seq<Seq<char>>) -> bool {
    exists|i: int| 0 <= i < roots.len() && is_under(path, #[trigger] roots[i])
}

/// Whether `path` lies in one of the directories `roots`.
pub fn is_under_any(path: &str, roots: &Vec<String>) -> (r: bool)
    ensures
        r == under_any(path@, views(roots@)),
{
    let ghost rs = views(roots@);
    for i in 0..roots.len()
        invariant
            rs == views(roots@),
            forall|j: int| 0 <= j < i ==> !is_under(path@, #[trigger] rs[j]),
    {
        assert(rs[i as int] == roots@[i as int]@);
        if path_under(path, roots[i].as_str()) {
            return true;
        }
    }
    false
}

/// The record belongs to a scanned directory, but its file was not seen there.
pub open spec fn is_stale(s: StoredPath, roots: Seq<Seq<char>>) -> bool {
    under_any(s.path@, roots) && !s.seen
}

/// The numbers of the records to drop, in their order.
pub open spec fn stale_in(rows: Seq<StoredPath>, roots: Seq<Seq<char>>) -> Seq<i64>
    decreases rows.len(),
{
    if rows.len() == 0 {
        Seq::empty()
    } else {
        let rest = stale_in(rows.drop_last(), roots);
        if is_stale(rows.last(), roots) {
            rest.push(rows.last().id)
        } else {
            rest
        }
    }
}

/// The records to drop after a scan that found `scanned` files: those of scanned
/// directories whose file is gone. Records of directories that were not scanned
/// stay, and so does every record where a scan found nothing at all.
pub fn stale_ids(scanned: usize, rows: &Vec<StoredPath>, roots: &Vec<String>) -> (r: Vec<i64>)
    ensures
        r@ == if scanned == 0 {
            Seq::empty()
        } else {
            stale_in(rows@, views(roots@))
        },
{
    let mut out: Vec<i64> = Vec::new();
    if scanned == 0 {
        assert(out@ =~= Seq::<i64>::empty());
        return out;
    }
    for i in 0..rows.len()
        invariant
            out@ == stale_in(rows@.take(i as int), views(roots@)),
    {
        proof {
            assert(rows@.take(i + 1).drop_last() =~= rows@.take(i as int));
        }
        if !rows[i].seen && is_under_any(rows[i].path.as_str(), roots) {
            out.push(rows[i].id);
        }
    }
    assert(rows@.take(rows@.len() as int) =~= rows@);
    out
}

/// A record is dropped only where it lies in a scanned directory and its file was
/// not seen, and every such record is.
pub proof fn law_only_missing_files_are_dropped(
    rows: Seq<StoredPath>,
    roots: Seq<Seq<char>>,
    id: i64,
)
    ensures
        stale_in(rows, roots).contains(id) <==> exists|k: int|
            0 <= k < rows.len() && (#[trigger] rows[k]).id == id && is_stale(rows[k], roots),
    decreases rows.len(),
{
    if rows.len() > 0 {
        let front = rows.drop_last();
        law_only_missing_files_are_dropped(front, roots, id);
        let rest = stale_in(front, roots);
        let all = stale_in(rows, roots);
        if all.contains(id) {
            let j = choose|j: int| 0 <= j < all.len() && all[j] == id;
            if is_stale(rows.last(), roots) && j == rest.len() {
                assert(rows[rows.len() - 1].id == id);
            } else {
                assert(rest[j] == id);
                assert(rest.contains(id));
                let k = choose|k: int|
                    0 <= k < front.len() && (#[trigger] front[k]).id == id && is_stale(
                        front[k],
                        roots,
                    );
                assert(rows[k] == front[k]);
            }
        }
        if exists|k: int|
            0 <= k < rows.len() && (#[trigger] rows[k]).id == id && is_stale(rows[k], roots) {
            let k = choose|k: int|
                0 <= k < rows.len() && (#[trigger] rows[k]).id == id && is_stale(rows[k], roots);
            if k < front.len() {
                assert(front[k] == rows[k]);
                assert(rest.contains(id));
                let j = choose|j: int| 0 <= j < rest.len() && rest[j] == id;
                assert(all[j] == id);
            } else {
                assert(all[rest.len() as int] == id);
            }
        }
    }
}

// ---------------------------------------------------------------------------
// Scanning again
// ---------------------------------------------------------------------------

/// A file on the disk, as far as a scan looks at it: size and time of change, what it
/// starts with, and its EXIF data; none of what cannot be read.
pub struct DiskFile {
    pub path: Seq<char>,
    pub stat: Option<FileStat>,
    pub head: Option<Seq<u8>>,
    pub exif: Option<LiteModel>,
}

/// What is on record: a fingerprint, and size and time of change.
pub open spec fn record_of(known: Option<KnownFile>) -> Option<(Seq<char>, FileStat)> {
    match known {
        Some(k) => Some(
            (k.fingerprint@, FileStat { file_size: k.file_size, mtime: k.mtime }),
        ),
        None => None,
    }
}

/// `r` is what comes of a file: of a first look at it, or of reading it where that is
/// called for.
pub open spec fn comes_of(file: DiskFile, known: Option<KnownFile>, r: Parsed) -> bool {
    let on_record = match known {
        Some(k) => stat_on_record(Some(&k)),
        None => None,
    };
    match look(on_record, file.stat) {
        FirstLook::Failed => r matches Parsed::Failed(p) && p@ == file.path,
        FirstLook::Unchanged => r matches Parsed::Unchanged(p) && p@ == file.path,
        FirstLook::Read(stat) => read_outcome(file.path, known, stat, file.head, file.exif, r),
    }
}

/// What is on record once the rows are written.
pub open spec fn record_after(known: Option<KnownFile>, r: Parsed) -> Option<
    (Seq<char>, FileStat),
> {
    match r {
        Parsed::Fresh(row) => Some(
            (row@.fingerprint, FileStat { file_size: row@.file_size, mtime: row@.mtime }),
        ),
        _ => record_of(known),
    }
}

/// A file that a scan could read is unchanged for the next scan, as long as it stays
/// as it is.
pub proof fn law_second_look_finds_no_change(
    file: DiskFile,
    known: Option<KnownFile>,
    first: Parsed,
    known_then: Option<KnownFile>,
    second: Parsed,
)
    requires
        comes_of(file, known, first),
        !(first is Failed),
        record_of(known_then) == record_after(known, first),
        comes_of(file, known_then, second),
    ensures
        second is Unchanged,
{
}

/// One step of a scan.
pub enum Step {
    /// A file is taken in.
    File(Parsed, bool),
    /// The rows that wait are handed out.
    Flush,
}

/// A scan of `total` files: its states, and the steps between them.
pub open spec fn is_scan(runs: Seq<ScanRun>, steps: Seq<Step>, total: usize) -> bool {
    &&& runs.len() == steps.len() + 1
    &&& runs[0].is_start(total)
    &&& forall|i: int|
        0 <= i < steps.len() ==> match #[trigger] steps[i] {
            Step::File(o, known) => runs[i].takes_in(o, known, runs[i + 1]),
            Step::Flush => runs[i].hands_out(runs[i + 1]),
        }
}

proof fn lemma_unchanged_so_far(runs: Seq<ScanRun>, steps: Seq<Step>, total: usize, i: int)
    requires
        is_scan(runs, steps, total),
        forall|k: int|
            0 <= k < steps.len() ==> (#[trigger] steps[k] matches Step::File(o, _) ==> o
                is Unchanged),
        0 <= i < runs.len(),
    ensures
        runs[i].batch@.len() == 0,
        runs[i].summary == (ScanSummary {
            scanned: total,
            unchanged: runs[i].parsed,
            ..zero_summary()
        }),
    decreases i,
{
    if i > 0 {
        lemma_unchanged_so_far(runs, steps, total, i - 1);
        assert(runs[i - 1].batch@ =~= Seq::<BatchRow>::empty());
        match steps[i - 1] {
            Step::File(o, known) => {
                assert(o is Unchanged);
            },
            Step::Flush => {},
        }
    }
}

proof fn lemma_nothing_stale(rows: Seq<StoredPath>, roots: Seq<Seq<char>>)
    requires
        forall|k: int|
            0 <= k < rows.len() && under_any((#[trigger] rows[k]).path@, roots) ==> rows[k].seen,
    ensures
        stale_in(rows, roots) == Seq::<i64>::empty(),
    decreases rows.len(),
{
    if rows.len() > 0 {
        let front = rows.drop_last();
        assert forall|k: int|
            0 <= k < front.len() && under_any((#[trigger] front[k]).path@, roots) implies front[k].seen by {
            assert(front[k] == rows[k]);
        }
        lemma_nothing_stale(front, roots);
        assert(rows[rows.len() - 1] == rows.last());
    }
}

/// A second scan changes nothing: where a first scan could read every file, and
/// neither the files nor the records changed since, a second one finds all files
/// unchanged, writes no row, and drops no record.
pub proof fn law_second_scan_changes_nothing(
    files: Seq<DiskFile>,
    known: Seq<Option<KnownFile>>,
    first: Seq<Parsed>,
    known_then: Seq<Option<KnownFile>>,
    second: Seq<Parsed>,
    runs: Seq<ScanRun>,
    steps: Seq<Step>,
    rows: Seq<StoredPath>,
    roots: Seq<Seq<char>>,
)
    requires
        files.len() <= usize::MAX,
        known.len() == files.len(),
        first.len() == files.len(),
        known_then.len() == files.len(),
        second.len() == files.len(),
        forall|i: int|
            0 <= i < files.len() ==> {
                &&& comes_of(#[trigger] files[i], known[i], first[i])
                &&& !(first[i] is Failed)
                &&& record_of(known_then[i]) == record_after(known[i], first[i])
                &&& comes_of(files[i], known_then[i], second[i])
            },
        is_scan(runs, steps, files.len() as usize),
        forall|k: int|
            0 <= k < steps.len() ==> (#[trigger] steps[k] matches Step::File(o, _)
                ==> second.contains(o)),
        runs.last().parsed == files.len(),
        forall|k: int|
            0 <= k < rows.len() && under_any((#[trigger] rows[k]).path@, roots) ==> rows[k].seen,
    ensures
        runs.last().summary == (ScanSummary {
            scanned: files.len() as usize,
            unchanged: files.len() as usize,
            ..zero_summary()
        }),
        forall|i: int| 0 <= i < runs.len() ==> (#[trigger] runs[i]).batch@.len() == 0,
        stale_in(rows, roots) == Seq::<i64>::empty(),
{
    assert forall|k: int| 0 <= k < steps.len() implies (#[trigger] steps[k] matches Step::File(o, _)
        ==> o is Unchanged) by {
        if let Step::File(o, _) = steps[k] {
            let i = choose|i: int| 0 <= i < second.len() && second[i] == o;
            law_second_look_finds_no_change(
                files[i],
                known[i],
                first[i],
                known_then[i],
                second[i],
            );
        }
    }
    assert forall|i: int| 0 <= i < runs.len() implies (#[trigger] runs[i]).batch@.len() == 0 by {
        lemma_unchanged_so_far(runs, steps, files.len() as usize, i);
    }
    lemma_unchanged_so_far(runs, steps, files.len() as usize, runs.len() - 1);
    lemma_nothing_stale(rows, roots);
}

// ---------------------------------------------------------------------------
// Listing directories
// ---------------------------------------------------------------------------

/// The chosen directory or one below it.
#[derive(Debug, Clone)]
pub struct DirNode {
    pub path: String,
    pub name: String,
    /// How far below the chosen directory it lies: 0 for the chosen one itself, 1
    /// for its children.
    pub depth: usize,
    pub has_children: bool,
}

/// A directory still to be visited.
#[derive(Debug, Clone)]
pub struct PendingDir {
    pub path: String,
    pub depth: usize,
}

/// A walk through a chosen directory and those below it, breadth first. It goes no
/// deeper than `max_depth` and lists no more than `max_nodes` directories.
pub struct DirWalk {
    pub queue: Vec<PendingDir>,
    /// How many of the queue were visited.
    pub head: usize,
    pub found: Vec<DirNode>,
    pub max_depth: usize,
    pub max_nodes: usize,
}

/// What a `DirNode` holds.
pub struct NodeModel {
    pub path: Seq<char>,
    pub name: Seq<char>,
    pub depth: usize,
    pub has_children: bool,
}

impl View for DirNode {
    type V = NodeModel;

    open spec fn view(&self) -> NodeModel {
        NodeModel {
            path: self.path@,
            name: self.name@,
            depth: self.depth,
            has_children: self.has_children,
        }
    }
}

pub open spec fn nodes_view(s: Seq<DirNode>) -> Seq<NodeModel> {
    s.map_values(|n: DirNode| n@)
}

pub open spec fn pending_view(s: Seq<PendingDir>) -> Seq<(Seq<char>, usize)> {
    s.map_values(|p: PendingDir| (p.path@, p.depth))
}

/// The entry for a directory that was visited.
pub open spec fn node_for(path: Seq<char>, depth: usize, has_children: bool) -> NodeModel {
    NodeModel {
        path,
        name: match name_of(path) {
            Some(n) => n,
            None => Seq::empty(),
        },
        depth,
        has_children,
    }
}

impl DirWalk {
    pub open spec fn wf(self) -> bool {
        &&& self.head <= self.queue@.len()
        &&& self.found@.len() <= self.max_nodes
        // Breadth first: the queue never steps back, nor ahead by more than one level.
        &&& forall|i: int, j: int|
            0 <= i < j < self.queue@.len() ==> (#[trigger] self.queue@[i]).depth <= (
            #[trigger] self.queue@[j]).depth
        &&& forall|i: int|
            0 <= i < self.queue@.len() ==> (#[trigger] self.queue@[i]).depth <= self.max_depth
        &&& self.head < self.queue@.len() ==> forall|i: int|
            0 <= i < self.queue@.len() ==> (#[trigger] self.queue@[i]).depth
                <= self.queue@[self.head as int].depth + 1
        // What was found comes level by level.
        &&& forall|i: int, j: int|
            0 <= i < j < self.found@.len() ==> (#[trigger] self.found@[i]).depth <= (
            #[trigger] self.found@[j]).depth
        &&& forall|i: int|
            0 <= i < self.found@.len() ==> (#[trigger] self.found@[i]).depth <= self.max_depth
        &&& self.head < self.queue@.len() ==> forall|i: int|
            0 <= i < self.found@.len() ==> (#[trigger] self.found@[i]).depth
                <= self.queue@[self.head as int].depth
    }

    /// A walk that starts at `root`.
    pub fn start(root: &str, max_depth: usize, max_nodes: usize) -> (r: Self)
        ensures
            r.wf(),
            pending_view(r.queue@) == seq![(root@, 0usize)],
            r.head == 0,
            r.found@.len() == 0,
            r.max_depth == max_depth,
            r.max_nodes == max_nodes,
    {
        let mut queue: Vec<PendingDir> = Vec::new();
        queue.push(PendingDir { path: root.to_string(), depth: 0 });
        assert(pending_view(queue@) =~= seq![(root@, 0usize)]);
        DirWalk { queue, head: 0, found: Vec::new(), max_depth, max_nodes }
    }

    /// The directory whose children are needed next; none when the walk is over.
    pub open spec fn next_dir(self) -> Option<(Seq<char>, usize)> {
        if self.head < self.queue@.len() && self.found@.len() < self.max_nodes {
            Some(
                (self.queue@[self.head as int].path@, self.queue@[self.head as int].depth),
            )
        } else {
            None
        }
    }

    pub fn next(&self) -> (r: Option<String>)
        requires
            self.wf(),
        ensures
            r is Some <==> self.next_dir() is Some,
            r matches Some(p) ==> p@ == self.next_dir()->Some_0.0,
    {
        if self.head < self.queue.len() && self.found.len() < self.max_nodes {
            Some(self.queue[self.head].path.clone())
        } else {
            None
        }
    }

    /// Takes in the child directories of the directory that `next` named, in any
    /// order: lists that directory, and puts its children, in the order of their
    /// names, at the end of the queue.
    pub fn visit(&mut self, kids: Vec<String>)
        requires
            old(self).wf(),
            old(self).next_dir() is Some,
        ensures
            final(self).wf(),
            final(self).head == old(self).head + 1,
            final(self).max_depth == old(self).max_depth,
            final(self).max_nodes == old(self).max_nodes,
            ({
                let (path, depth) = old(self).next_dir()->Some_0;
                &&& nodes_view(final(self).found@) == nodes_view(old(self).found@).push(
                    node_for(path, depth, kids@.len() > 0),
                )
                &&& if depth >= old(self).max_depth {
                    final(self).queue@ == old(self).queue@
                } else {
                    exists|sorted: Seq<String>|
                        #![trigger sorted.to_multiset()]
                        {
                            &&& sorted.to_multiset() == kids@.to_multiset()
                            &&& sorted_texts(views(sorted))
                            &&& pending_view(final(self).queue@) == pending_view(
                                old(self).queue@,
                            ) + views(sorted).map_values(
                                |p: Seq<char>| (p, (depth + 1) as usize),
                            )
                        }
                }
            }),
    {
        let n: usize = self.queue.len();
        let depth: usize = self.queue[self.head].depth;
        let path = self.queue[self.head].path.clone();
        let has_children = kids.len() > 0;
        let mut sorted = kids;
        sort_strings(&mut sorted);
        let ghost at = self.head as int;
        let name = match file_name(path.as_str()) {
            Some(n) => n,
            None => String::new(),
        };
        proof {
            if name_of(path@) is None {
                assert(name@ =~= Seq::<char>::empty());
            }
        }
        let node = DirNode { path, name, depth, has_children };
        self.found.push(node);
        assert(nodes_view(self.found@) =~= nodes_view(old(self).found@).push(node@));
        assert(self.head < n);
        self.head = self.head + 1;
        let ghost q0 = self.queue@;
        let ghost f0 = self.found@;
        if depth < self.max_depth {
            let ghost want = views(sorted@).map_values(|p: Seq<char>| (p, (depth + 1) as usize));
            for i in 0..sorted.len()
                invariant
                    depth < self.max_depth,
                    self.head == at + 1,
                    self.found@ == f0,
                    self.max_depth == old(self).max_depth,
                    self.max_nodes == old(self).max_nodes,
                    q0 == old(self).queue@,
                    self.queue@.len() == q0.len() + i,
                    self.queue@.take(q0.len() as int) =~= q0,
                    forall|j: int|
                        q0.len() <= j < self.queue@.len() ==> (#[trigger] self.queue@[j]).depth
                            == depth + 1 && self.queue@[j].path@ == sorted@[j - q0.len()]@,
            {
                let kid = sorted[i].clone();
                self.queue.push(PendingDir { path: kid, depth: depth + 1 });
            }
            proof {
                assert forall|j: int| 0 <= j < q0.len() implies self.queue@[j] == q0[j] by {
                    assert(self.queue@.take(q0.len() as int)[j] == q0[j]);
                }
                assert(pending_view(self.queue@) =~= pending_view(q0) + want);
                assert(sorted@.to_multiset() == kids@.to_multiset());
            }
        }
        proof {
            let q = self.queue@;
            assert forall|i: int| 0 <= i < q.len() implies (#[trigger] q[i]).depth <= depth + 1
                && q[i].depth <= self.max_depth && (i < q0.len() ==> q[i] == q0[i]) && (i
                >= q0.len() ==> q[i].depth == depth + 1) by {
                if i < q0.len() {
                    assert(q0[i].depth <= q0[at].depth + 1);
                }
            }
        }
    }
}

} // verus!
