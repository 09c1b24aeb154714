//! The library's database: its tables, the texts of its queries, and what is done
//! when it does not open.
use vstd::prelude::*;

use crate::filepath::{file_name, join_path, name_of, parent, parent_of, path_in};
use crate::filter::{
    args_view,
    doubled,
    prefixes_in,
    roots_view,
    scope_suffix,
    scope_where,
    Query,
    COLOR,
    DECISION,
    FROM_PHOTOS,
    STARS,
    TIME_TEXT,
};
use crate::text::{cat, cat3, dec, dec_int, decimal, decimal_signed, opt_view, same, views};

verus! {

// ---------------------------------------------------------------------------
// Tables and queries
// ---------------------------------------------------------------------------

/// The tables. Marks are keyed by the pair, never by the number of a photo: photos
/// get new numbers when a folder is scanned again, and marks have to outlive that.
pub const SCHEMA: &'static str = "
CREATE TABLE IF NOT EXISTS photos (
  id                 INTEGER PRIMARY KEY,
  path               TEXT NOT NULL UNIQUE,
  fingerprint        TEXT NOT NULL DEFAULT '',
  content_hash       TEXT,
  phash              TEXT,
  pair_key           TEXT NOT NULL DEFAULT '',
  file_kind          TEXT NOT NULL DEFAULT 'other',
  is_primary         INTEGER NOT NULL DEFAULT 1,
  decode_path        TEXT,
  file_size          INTEGER NOT NULL DEFAULT 0,
  mtime              INTEGER NOT NULL DEFAULT 0,
  width              INTEGER,
  height             INTEGER,
  taken_at           INTEGER,
  taken_at_corrected INTEGER,
  camera_model       TEXT,
  camera_serial      TEXT,
  lens               TEXT,
  focal_len          REAL,
  aperture           REAL,
  shutter            TEXT,
  iso                INTEGER,
  orientation        INTEGER,
  exif_ok            INTEGER NOT NULL DEFAULT 0,
  indexed_at         INTEGER NOT NULL DEFAULT 0,
  sharpness          REAL,
  overexposed        REAL,
  underexposed       REAL,
  faces              INTEGER,
  eye_ratio          REAL
);

CREATE INDEX IF NOT EXISTS idx_photos_pair  ON photos(pair_key);
CREATE INDEX IF NOT EXISTS idx_photos_time  ON photos(taken_at_corrected);
CREATE INDEX IF NOT EXISTS idx_photos_kind  ON photos(file_kind);

CREATE TABLE IF NOT EXISTS camera_bodies (
  serial              TEXT PRIMARY KEY,
  model               TEXT,
  time_offset_seconds INTEGER NOT NULL DEFAULT 0,
  first_seen_at       INTEGER,
  note                TEXT
);

CREATE TABLE IF NOT EXISTS decisions (
  pair_key   TEXT PRIMARY KEY,
  decision   TEXT NOT NULL DEFAULT 'none',
  stars      INTEGER NOT NULL DEFAULT 0,
  color      TEXT NOT NULL DEFAULT '',
  updated_at INTEGER NOT NULL DEFAULT 0
);

CREATE INDEX IF NOT EXISTS idx_decisions_decision ON decisions(decision);

CREATE TABLE IF NOT EXISTS meta (
  key   TEXT PRIMARY KEY,
  value TEXT NOT NULL
);
";

pub const META_GET: &'static str = "SELECT value FROM meta WHERE key = ?1";

pub const META_SET: &'static str = "INSERT INTO meta(key, value) VALUES(?1, ?2) ON CONFLICT(key) DO UPDATE SET value = excluded.value";

pub const SELECT_KNOWN: &'static str = "SELECT path, fingerprint, file_size, mtime FROM photos";

pub const SELECT_OFFSETS: &'static str = "SELECT serial, time_offset_seconds FROM camera_bodies";

pub const WRITE_PHOTO: &'static str = "INSERT INTO photos (path, fingerprint, pair_key, file_kind, file_size, mtime, width, height, taken_at, taken_at_corrected, camera_model, camera_serial, lens, focal_len, aperture, shutter, iso, orientation, exif_ok, indexed_at) VALUES (?1,?2,?3,?4,?5,?6,?7,?8,?9,?10,?11,?12,?13,?14,?15,?16,?17,?18,?19,?20) ON CONFLICT(path) DO UPDATE SET fingerprint = excluded.fingerprint, pair_key = excluded.pair_key, file_kind = excluded.file_kind, file_size = excluded.file_size, mtime = excluded.mtime, width = excluded.width, height = excluded.height, taken_at = excluded.taken_at, taken_at_corrected = excluded.taken_at_corrected, camera_model = excluded.camera_model, camera_serial = excluded.camera_serial, lens = excluded.lens, focal_len = excluded.focal_len, aperture = excluded.aperture, shutter = excluded.shutter, iso = excluded.iso, orientation = excluded.orientation, exif_ok = excluded.exif_ok, indexed_at = excluded.indexed_at";

pub const SELECT_MEMBERS: &'static str = "SELECT id, file_kind = 'raw' FROM photos WHERE pair_key = ?1";

pub const SET_PRIMARY: &'static str = "UPDATE photos SET is_primary = (id = ?1) WHERE pair_key = ?2";

pub const SELECT_PATHS: &'static str = "SELECT id, path FROM photos";

pub const DELETE_PHOTO: &'static str = "DELETE FROM photos WHERE id = ?1";

/// Shots, shots with a RAW file and no JPEG file, and shots with a JPEG file and no
/// RAW file.
pub const COUNT_PAIRS: &'static str = "SELECT COUNT(*), SUM(CASE WHEN has_raw = 1 AND has_jpg = 0 THEN 1 ELSE 0 END), SUM(CASE WHEN has_jpg = 1 AND has_raw = 0 THEN 1 ELSE 0 END) FROM (SELECT pair_key, MAX(CASE WHEN file_kind = 'raw' THEN 1 ELSE 0 END) AS has_raw, MAX(CASE WHEN file_kind = 'jpeg' THEN 1 ELSE 0 END) AS has_jpg FROM photos GROUP BY pair_key)";

pub const COUNT_EXIF_FAILED: &'static str = "SELECT COUNT(*) FROM photos WHERE exif_ok = 0";

pub const COUNT_CAMERAS: &'static str = "SELECT COUNT(DISTINCT camera_serial) FROM photos WHERE camera_serial IS NOT NULL";

pub const COUNT_PHOTOS: &'static str = "SELECT COUNT(*) FROM photos";

pub const COUNT_MARKED: &'static str = "SELECT COUNT(*) FROM decisions WHERE decision <> 'none' OR stars > 0";

/// Photos that were not judged yet; one file of each shot is enough.
pub const SELECT_UNJUDGED: &'static str = "SELECT p.id, p.path FROM photos p WHERE p.is_primary = 1 AND p.sharpness IS NULL ORDER BY p.id";

pub const WRITE_METRICS: &'static str = "UPDATE photos SET sharpness = ?1, overexposed = ?2, underexposed = ?3 WHERE id = ?4";

pub const COUNT_UNJUDGED: &'static str = "SELECT COUNT(*) FROM photos WHERE is_primary = 1 AND sharpness IS NULL";

/// Photos that were not looked at for closed eyes yet.
pub const SELECT_UNSEEN: &'static str = "SELECT p.id, p.path FROM photos p WHERE p.is_primary = 1 AND p.faces IS NULL ORDER BY p.id";

pub const WRITE_EYES: &'static str = "UPDATE photos SET faces = ?1, eye_ratio = ?2 WHERE id = ?3";

pub const COUNT_UNSEEN: &'static str = "SELECT COUNT(*) FROM photos WHERE is_primary = 1 AND faces IS NULL";

pub const WRITE_OFFSET: &'static str = "INSERT INTO camera_bodies(serial, time_offset_seconds, first_seen_at) VALUES(?1, ?2, ?3) ON CONFLICT(serial) DO UPDATE SET time_offset_seconds = excluded.time_offset_seconds";

/// Corrects the times of all photos again. A clock that is fast is set back.
pub const CORRECT_TIMES: &'static str = "UPDATE photos SET taken_at_corrected = taken_at - COALESCE((SELECT time_offset_seconds FROM camera_bodies cb WHERE cb.serial = photos.camera_serial), 0) WHERE taken_at IS NOT NULL";

/// The cameras among the photos of a scope, with how fast their clocks are.
pub open spec fn bodies_text(scope: Seq<char>) -> Seq<char> {
    "SELECT COALESCE(p.camera_serial, '__none__') AS serial, COALESCE(MAX(p.camera_model), '未知机身') AS model, COALESCE((SELECT cb.time_offset_seconds FROM camera_bodies cb WHERE cb.serial = p.camera_serial), 0) AS off, COUNT(*) AS n "@
        + FROM_PHOTOS@ + " WHERE p.is_primary = 1"@ + scope
        + " GROUP BY serial ORDER BY n DESC, model"@
}

/// The cameras in the library, with how fast their clocks are.
pub fn bodies_query(roots: &Option<Vec<String>>, sep: char) -> (r: Query)
    ensures
        r.sql@ == bodies_text(scope_suffix(prefixes_in(roots_view(*roots), sep).len())),
        args_view(r.args@) == doubled(prefixes_in(roots_view(*roots), sep)),
{
    let (scope, args) = scope_where(roots, sep);
    let mut sql =
        "SELECT COALESCE(p.camera_serial, '__none__') AS serial, COALESCE(MAX(p.camera_model), '未知机身') AS model, COALESCE((SELECT cb.time_offset_seconds FROM camera_bodies cb WHERE cb.serial = p.camera_serial), 0) AS off, COUNT(*) AS n ".to_string();
    sql.push_str(FROM_PHOTOS);
    sql.push_str(" WHERE p.is_primary = 1");
    sql.push_str(scope.as_str());
    sql.push_str(" GROUP BY serial ORDER BY n DESC, model");
    Query { sql, args }
}

pub const DETAIL_HEAD: &'static str = "SELECT p.path, p.pair_key, p.file_kind, p.is_primary, p.file_size, p.width, p.height, ";

pub const DETAIL_MID: &'static str = ", CASE WHEN p.taken_at_corrected IS NOT NULL THEN 'exif' ELSE 'mtime' END, p.camera_model, p.camera_serial, p.lens, p.focal_len, p.aperture, p.shutter, p.iso, p.orientation, p.exif_ok, strftime('%Y-%m-%d %H:%M:%S', p.indexed_at, 'unixepoch', 'localtime'), p.sharpness, p.overexposed, p.underexposed, p.decode_path, p.fingerprint, p.content_hash, p.phash, ";

pub const DETAIL_TAIL: &'static str = ", p.faces, p.eye_ratio ";

/// Everything on record of one photo.
pub fn detail_sql() -> (r: String)
    ensures
        r@ == DETAIL_HEAD@ + TIME_TEXT@ + DETAIL_MID@ + DECISION@ + ", "@ + STARS@ + ", "@ + COLOR@
            + DETAIL_TAIL@ + FROM_PHOTOS@ + " WHERE p.id = ?1"@,
{
    let mut s = DETAIL_HEAD.to_string();
    s.push_str(TIME_TEXT);
    s.push_str(DETAIL_MID);
    s.push_str(DECISION);
    s.push_str(", ");
    s.push_str(STARS);
    s.push_str(", ");
    s.push_str(COLOR);
    s.push_str(DETAIL_TAIL);
    s.push_str(FROM_PHOTOS);
    s.push_str(" WHERE p.id = ?1");
    s
}

pub const SELECT_SIBLINGS: &'static str = "SELECT id, path, file_kind, file_size FROM photos WHERE pair_key = ?1 AND id != ?2 ORDER BY path";

/// Name and directory as they are shown; a path without a name is shown as it is.
pub fn detail_names(path: &str) -> (r: (String, String))
    ensures
        r.0@ == match name_of(path@) {
            Some(n) => n,
            None => path@,
        },
        r.1@ == match parent_of(path@) {
            Some(d) => d,
            None => Seq::empty(),
        },
{
    let name = match file_name(path) {
        Some(n) => n,
        None => path.to_string(),
    };
    let dir = match parent(path) {
        Some(d) => d,
        None => {
            let e = String::new();
            assert(e@ =~= Seq::<char>::empty());
            e
        },
    };
    (name, dir)
}

// ---------------------------------------------------------------------------
// Settings
// ---------------------------------------------------------------------------

/// The setting for looking for closed eyes.
pub const BLINK_KEY: &'static str = "blink_enabled";

pub open spec fn flag_value(on: bool) -> Seq<char> {
    if on {
        "1"@
    } else {
        "0"@
    }
}

/// How a switch is stored.
pub fn flag_text(on: bool) -> (r: &'static str)
    ensures
        r@ == flag_value(on),
{
    if on {
        "1"
    } else {
        "0"
    }
}

pub open spec fn is_on(v: Option<Seq<char>>) -> bool {
    v == Some("1"@)
}

/// Whether a stored switch is on; one that was never set is off.
pub fn flag_on(v: &Option<String>) -> (r: bool)
    ensures
        r == is_on(opt_view(*v)),
{
    match v {
        Some(s) => same(s.as_str(), "1"),
        None => false,
    }
}

/// A switch reads back as it was set, and is off before.
pub proof fn law_switches_read_back(on: bool)
    ensures
        is_on(Some(flag_value(on))) == on,
        !is_on(None),
{
    reveal_strlit("1");
    reveal_strlit("0");
    assert("1"@[0] != "0"@[0]);
}

// ---------------------------------------------------------------------------
// What to scan
// ---------------------------------------------------------------------------

/// The directories to scan, and whether only their own files count. Without a choice
/// all of the folder is scanned; with an empty choice only the folder itself; else
/// the chosen directories.
pub open spec fn scan_choice(path: Seq<char>, dirs: Option<Seq<Seq<char>>>) -> (
    Seq<Seq<char>>,
    bool,
) {
    match dirs {
        Some(d) => if d.len() > 0 {
            (d, false)
        } else {
            (seq![path], true)
        },
        None => (seq![path], false),
    }
}

pub fn scan_scope(path: &str, dirs: Option<Vec<String>>) -> (r: (Vec<String>, Option<usize>))
    ensures
        views(r.0@) == scan_choice(path@, roots_view(dirs)).0,
        r.1 == if scan_choice(path@, roots_view(dirs)).1 {
            Some(1usize)
        } else {
            None
        },
{
    let shallow = match &dirs {
        Some(d) => d.len() == 0,
        None => false,
    };
    if let Some(d) = dirs {
        if d.len() > 0 {
            return (d, None);
        }
    }
    let mut one: Vec<String> = Vec::new();
    one.push(path.to_string());
    assert(views(one@) =~= seq![path@]);
    if shallow {
        (one, Some(1))
    } else {
        (one, None)
    }
}

// ---------------------------------------------------------------------------
// Clearing
// ---------------------------------------------------------------------------

/// What is deleted from the library.
#[derive(Debug, Clone, Copy, PartialEq, Eq, Structural)]
pub struct Purge {
    pub photos: bool,
    pub marks: bool,
}

pub open spec fn purge_of(scope: Seq<char>) -> Purge {
    Purge { photos: scope == "index"@ || scope == "all"@, marks: scope == "all"@ }
}

/// What a request to clear the cache deletes from the library: the index, or also the
/// marks. Any other word leaves the library alone.
pub fn purge_index(scope: &str) -> (r: Purge)
    ensures
        r == purge_of(scope@),
{
    let all = same(scope, "all");
    Purge { photos: all || same(scope, "index"), marks: all }
}

/// Clearing the index keeps the marks: they come back with the next scan.
pub proof fn law_clearing_the_index_keeps_marks(scope: Seq<char>)
    ensures
        !purge_of("index"@).marks,
        purge_of("index"@).photos,
        purge_of(scope).marks ==> scope == "all"@,
{
    reveal_strlit("index");
    reveal_strlit("all");
    assert("index"@.len() != "all"@.len());
}

// ---------------------------------------------------------------------------
// Opening
// ---------------------------------------------------------------------------

/// A smaller file than one page of a database.
pub const PAGE_BYTES: u64 = 512;

/// A file that writing left behind when it was broken off. It is too small to be a
/// database, so nothing can be lost with it. A larger file is never taken for one.
pub open spec fn is_remnant(len: Option<u64>) -> bool {
    len is Some && len->Some_0 < PAGE_BYTES
}

/// `len` is the size of the file; none where there is no file.
pub fn is_unusable_remnant(len: Option<u64>) -> (r: bool)
    ensures
        r == is_remnant(len),
{
    match len {
        Some(n) => n < PAGE_BYTES,
        None => false,
    }
}

/// How far opening the library has come.
#[derive(Debug, Clone, Copy, PartialEq, Eq, Structural)]
pub enum Phase {
    /// The first try.
    Opening,
    /// The first try failed; the file is no remnant. Can it be read at all?
    Checking,
    /// A remnant, or the files beside a database, are being removed.
    Clearing,
    /// A second try, after something was removed.
    Reopening,
    /// The second try failed. Can the file be read at all?
    Rechecking,
    /// The damaged file is being put aside.
    Quarantining,
    /// The last try, with a new file.
    Recreating,
    /// It is settled how opening ends.
    Settled,
}

/// What happened.
#[derive(Debug, Clone, Copy, PartialEq, Eq, Structural)]
pub enum Event {
    Opened,
    /// Opening failed; whether the file is a remnant.
    NotOpened(bool),
    /// Whether anything was removed.
    Cleared(bool),
    /// Whether the file can be read as a database.
    Readable(bool),
    /// Whether the file could be put aside.
    PutAside(bool),
}

/// What to do next.
#[derive(Debug, Clone, Copy, PartialEq, Eq, Structural)]
pub enum Action {
    Open,
    /// Remove the file and the files beside it.
    RemoveRemnant,
    /// Remove the files beside the database.
    RemoveSidecars,
    CheckReadable,
    /// Rename the file.
    Quarantine,
    /// The library is open.
    Done,
    /// Give up without having touched the file: it can be read, but has other tables.
    Refuse,
    /// Give up: the file could not be put aside.
    NoQuarantine,
    /// Give up: no library can be opened.
    Fail,
}

/// What follows on an event.
///
/// A remnant is removed. A file that can be read is left exactly as it is, whatever
/// else is wrong: the marks in it cannot be made again. Only a file that cannot be
/// read is put aside for a new one, and even then it is renamed, not deleted.
pub open spec fn opening(p: Phase, e: Event) -> (Phase, Action) {
    match (p, e) {
        (Phase::Opening, Event::Opened) => (Phase::Settled, Action::Done),
        (Phase::Opening, Event::NotOpened(true)) => (Phase::Clearing, Action::RemoveRemnant),
        (Phase::Opening, Event::NotOpened(false)) => (Phase::Checking, Action::CheckReadable),
        (Phase::Checking, Event::Readable(true)) => (Phase::Settled, Action::Refuse),
        (Phase::Checking, Event::Readable(false)) => (Phase::Clearing, Action::RemoveSidecars),
        (Phase::Clearing, Event::Cleared(true)) => (Phase::Reopening, Action::Open),
        (Phase::Clearing, Event::Cleared(false)) => (Phase::Rechecking, Action::CheckReadable),
        (Phase::Reopening, Event::Opened) => (Phase::Settled, Action::Done),
        (Phase::Reopening, Event::NotOpened(_)) => (Phase::Rechecking, Action::CheckReadable),
        (Phase::Rechecking, Event::Readable(true)) => (Phase::Settled, Action::Refuse),
        (Phase::Rechecking, Event::Readable(false)) => (Phase::Quarantining, Action::Quarantine),
        (Phase::Quarantining, Event::PutAside(true)) => (Phase::Recreating, Action::Open),
        (Phase::Quarantining, Event::PutAside(false)) => (Phase::Settled, Action::NoQuarantine),
        (Phase::Recreating, Event::Opened) => (Phase::Settled, Action::Done),
        _ => (Phase::Settled, Action::Fail),
    }
}

pub fn open_step(p: Phase, e: Event) -> (r: (Phase, Action))
    ensures
        r == opening(p, e),
{
    match (p, e) {
        (Phase::Opening, Event::Opened) => (Phase::Settled, Action::Done),
        (Phase::Opening, Event::NotOpened(true)) => (Phase::Clearing, Action::RemoveRemnant),
        (Phase::Opening, Event::NotOpened(false)) => (Phase::Checking, Action::CheckReadable),
        (Phase::Checking, Event::Readable(true)) => (Phase::Settled, Action::Refuse),
        (Phase::Checking, Event::Readable(false)) => (Phase::Clearing, Action::RemoveSidecars),
        (Phase::Clearing, Event::Cleared(true)) => (Phase::Reopening, Action::Open),
        (Phase::Clearing, Event::Cleared(false)) => (Phase::Rechecking, Action::CheckReadable),
        (Phase::Reopening, Event::Opened) => (Phase::Settled, Action::Done),
        (Phase::Reopening, Event::NotOpened(_)) => (Phase::Rechecking, Action::CheckReadable),
        (Phase::Rechecking, Event::Readable(true)) => (Phase::Settled, Action::Refuse),
        (Phase::Rechecking, Event::Readable(false)) => (Phase::Quarantining, Action::Quarantine),
        (Phase::Quarantining, Event::PutAside(true)) => (Phase::Recreating, Action::Open),
        (Phase::Quarantining, Event::PutAside(false)) => (Phase::Settled, Action::NoQuarantine),
        (Phase::Recreating, Event::Opened) => (Phase::Settled, Action::Done),
        _ => (Phase::Settled, Action::Fail),
    }
}

/// How many steps are left at most.
pub open spec fn steps_left(p: Phase) -> nat {
    match p {
        Phase::Opening => 7,
        Phase::Checking => 6,
        Phase::Clearing => 5,
        Phase::Reopening => 4,
        Phase::Rechecking => 3,
        Phase::Quarantining => 2,
        Phase::Recreating => 1,
        Phase::Settled => 0,
    }
}

/// Opening always ends: every step comes closer to the end.
pub proof fn law_opening_ends(p: Phase, e: Event)
    requires
        p != Phase::Settled,
    ensures
        steps_left(opening(p, e).0) < steps_left(p),
        opening(p, e).0 == Phase::Settled <==> {
            let a = opening(p, e).1;
            a == Action::Done || a == Action::Refuse || a == Action::NoQuarantine || a
                == Action::Fail
        },
{
}

/// Whenever the library opens, opening is done; a file that cannot be put aside, or a new
/// one that does not open, is given up.
pub proof fn law_an_open_library_is_done(p: Phase)
    ensures
        p == Phase::Opening || p == Phase::Reopening || p == Phase::Recreating ==> opening(
            p,
            Event::Opened,
        ) == (Phase::Settled, Action::Done),
        forall|e: Event| #[trigger] opening(p, e).1 == Action::Done ==> e == Event::Opened,
        opening(Phase::Quarantining, Event::PutAside(true)) == (Phase::Recreating, Action::Open),
        opening(Phase::Quarantining, Event::PutAside(false)).1 == Action::NoQuarantine,
        forall|b: bool|
            #[trigger] opening(Phase::Recreating, Event::NotOpened(b)).1 == Action::Fail,
        forall|b: bool|
            (#[trigger] opening(Phase::Reopening, Event::NotOpened(b))) == (
                Phase::Rechecking,
                Action::CheckReadable,
            ),
{
}

/// A library that can be read is never removed, renamed, or parted from the files
/// beside it: a file is only removed as a remnant, the files beside it only once it
/// turned out that it cannot be read, and it is only put aside after that turned out
/// once more. When it can be read, opening ends there and then.
pub proof fn law_readable_libraries_are_left_alone(p: Phase, e: Event)
    ensures
        opening(p, e).1 == Action::RemoveRemnant ==> p == Phase::Opening && e
            == Event::NotOpened(true),
        opening(p, e).1 == Action::RemoveSidecars ==> p == Phase::Checking && e == Event::Readable(
            false,
        ),
        opening(p, e).1 == Action::Quarantine ==> p == Phase::Rechecking && e == Event::Readable(
            false,
        ),
        e == Event::Readable(true) && (p == Phase::Checking || p == Phase::Rechecking)
            ==> opening(p, e) == (Phase::Settled, Action::Refuse),
{
}

/// A remnant never keeps the library from opening: it is removed, and once it is,
/// opening is tried again.
pub proof fn law_remnants_are_cleared_and_retried()
    ensures
        opening(Phase::Opening, Event::NotOpened(true)) == (
            Phase::Clearing,
            Action::RemoveRemnant,
        ),
        opening(Phase::Clearing, Event::Cleared(true)) == (Phase::Reopening, Action::Open),
{
}

/// The files beside a database: its journal, its write-ahead log and its index.
pub fn sidecar_paths(path: &str) -> (r: Vec<String>)
    ensures
        views(r@) == seq![path@ + "-journal"@, path@ + "-wal"@, path@ + "-shm"@],
{
    let mut v: Vec<String> = Vec::new();
    v.push(cat(path, "-journal"));
    v.push(cat(path, "-wal"));
    v.push(cat(path, "-shm"));
    assert(views(v@) =~= seq![path@ + "-journal"@, path@ + "-wal"@, path@ + "-shm"@]);
    v
}

/// The name under which a damaged file is put aside: beside it, with the time behind
/// its name.
pub open spec fn quarantine_path(path: Seq<char>, stamp: u64) -> Seq<char> {
    let name = match name_of(path) {
        Some(n) => n,
        None => "library.db"@,
    };
    let dir = match name_of(path) {
        Some(_) => match parent_of(path) {
            Some(d) => d,
            None => Seq::empty(),
        },
        None => path,
    };
    path_in(dir, name + ".bad-"@ + dec(stamp as nat))
}

pub fn quarantine_name(path: &str, stamp: u64) -> (r: String)
    ensures
        r@ == quarantine_path(path@, stamp),
{
    let num = decimal(stamp);
    match file_name(path) {
        Some(name) => {
            let dir = match parent(path) {
                Some(d) => d,
                None => {
                    let e = String::new();
                    assert(e@ =~= Seq::<char>::empty());
                    e
                },
            };
            let bad = cat3(name.as_str(), ".bad-", num.as_str());
            join_path(dir.as_str(), bad.as_str())
        },
        None => {
            let bad = cat3("library.db", ".bad-", num.as_str());
            join_path(path, bad.as_str())
        },
    }
}

/// What a library with other tables is refused with.
pub fn refusal_text(path: &str) -> (r: String)
    ensures
        r@ == "数据库文件正常，但表结构没能应用（多半是新旧版本不兼容）。\n  文件已原样保留、未做任何改动："@
            + path@ + "\n  这一档刻意不自动重建，以免丢掉已经做好的选片结果。"@,
{
    cat3(
        "数据库文件正常，但表结构没能应用（多半是新旧版本不兼容）。\n  文件已原样保留、未做任何改动：",
        path,
        "\n  这一档刻意不自动重建，以免丢掉已经做好的选片结果。",
    )
}

/// What becomes of a table that earlier versions made and never used.
#[derive(Debug, Clone, Copy, PartialEq, Eq, Structural)]
pub enum Legacy {
    /// There is no such table.
    Absent,
    /// It is empty, and dropped.
    Drop,
    /// It holds rows, or may hold some, and stays.
    Keep,
}

/// `tables` is the number of such tables, `rows` that of its rows, where it could be
/// counted.
pub fn legacy_table(tables: i64, rows: Option<i64>) -> (r: Legacy)
    ensures
        r == if tables == 0 {
            Legacy::Absent
        } else if rows == Some(0i64) {
            Legacy::Drop
        } else {
            Legacy::Keep
        },
{
    if tables == 0 {
        return Legacy::Absent;
    }
    match rows {
        Some(n) => if n == 0 {
            Legacy::Drop
        } else {
            Legacy::Keep
        },
        None => Legacy::Keep,
    }
}

// ---------------------------------------------------------------------------
// Starting without a library
// ---------------------------------------------------------------------------

/// What is shown when the library does not open and nothing is kept in this run.
pub fn startup_message(path: &str, reason: &str) -> (r: String)
    ensures
        r@ == "数据库打不开，本次运行不会保存任何索引。\n路径："@ + path@ + "\n原因："@ + reason@,
{
    let mut s = "数据库打不开，本次运行不会保存任何索引。\n路径：".to_string();
    s.push_str(path);
    s.push_str("\n原因：");
    s.push_str(reason);
    s
}

/// What is written to the log of a failed start.
pub fn startup_log(stamp: i64, message: &str) -> (r: String)
    ensures
        r@ == "时间戳："@ + dec_int(stamp as int) + "\n\n"@ + message@ + "\n"@,
{
    let num = decimal_signed(stamp);
    let mut s = "时间戳：".to_string();
    s.push_str(num.as_str());
    s.push_str("\n\n");
    s.push_str(message);
    s.push_str("\n");
    s
}

} // verus!
