//! Where files lie and how they are told apart: names, directories, fingerprints, and what
//! is on record of them.
use vstd::prelude::*;

use crate::bursts::{bursts_in, group_for, BurstRow};
use crate::db::{quarantine_path, scan_choice};
use crate::filepath::{
    ext_of,
    ext_of_name,
    is_plain_name,
    last_dot,
    lemma_join_splits,
    lemma_last_dot,
    name_of,
    parent_of,
    path_in,
    stem_of,
    stem_of_name,
    trim_tail,
};
use crate::hash::{fingerprint_input, le_bytes, twos};
use crate::indexer::{
    clock_error,
    look,
    node_for,
    offset_in,
    BodyOffset,
    FileStat,
    FirstLook,
    LiteModel,
};
use crate::pairing::{goes_before, Member};
use crate::paths::{base_dir, NoDataDir, Platform};
use crate::text::dec;

verus! {

// ---------------------------------------------------------------------------
// Names
// ---------------------------------------------------------------------------

proof fn lemma_path_in(dir: Seq<char>, name: Seq<char>)
    requires
        dir.len() > 0,
    ensures
        dir.last() != '/' ==> path_in(dir, name) == dir + seq!['/'] + name,
        dir.last() == '/' ==> path_in(dir, name) == dir.drop_last() + seq!['/'] + name,
{
    if dir.last() != '/' {
        assert(path_in(dir, name) =~= dir + seq!['/'] + name);
    } else {
        assert(path_in(dir, name) =~= dir.drop_last() + seq!['/'] + name);
    }
}

/// A file put into a directory has the name that it was given, and lies in that
/// directory; there is one separator between the two.
pub proof fn law_files_lie_where_they_were_put(dir: Seq<char>, name: Seq<char>)
    requires
        dir.len() > 0,
        is_plain_name(name),
    ensures
        name_of(path_in(dir, name)) == Some(name),
        parent_of(path_in(dir, name)) == parent_of(path_in(dir, "x"@)),
        dir.last() != '/' && dir.last() != '.' ==> parent_of(path_in(dir, name)) == Some(dir),
        dir.last() != '/' ==> path_in(dir, name).len() == dir.len() + 1 + name.len(),
        dir.last() == '/' ==> path_in(dir, name).len() == dir.len() + name.len(),
        path_in(Seq::empty(), name) == name,
{
    reveal_strlit("x");
    let other = "x"@;
    assert(other.len() == 1 && other[0] == 'x');
    assert(is_plain_name(other));
    lemma_path_in(dir, name);
    lemma_path_in(dir, other);
    let d = if dir.last() == '/' {
        dir.drop_last()
    } else {
        dir
    };
    lemma_join_splits(d, name);
    lemma_join_splits(d, other);
    if dir.last() != '/' && dir.last() != '.' {
        let t = dir + seq!['/'];
        assert(t.drop_last() =~= dir);
        assert(trim_tail(t) == trim_tail(dir));
        assert(trim_tail(dir) == dir);
    }
    assert(path_in(Seq::empty(), name) =~= name);
}

/// A name is its stem, a dot and its extension, which has no dot; a name without a dot, or
/// with one only in front, has no extension.
pub proof fn law_names_are_stem_and_extension(stem: Seq<char>, ext: Seq<char>, name: Seq<char>)
    requires
        stem.len() > 0,
        !ext.contains('.'),
        !name.contains('.'),
    ensures
        stem_of_name(stem + seq!['.'] + ext) == stem,
        ext_of_name(stem + seq!['.'] + ext) == Some(ext),
        stem_of_name(name) == name,
        ext_of_name(name) is None,
        stem_of_name(seq!['.'] + name) == seq!['.'] + name,
        ext_of_name(seq!['.'] + name) is None,
{
    let whole = stem + seq!['.'] + ext;
    lemma_last_dot(whole);
    assert(whole[stem.len() as int] == '.');
    if last_dot(whole) > stem.len() {
        assert(ext[last_dot(whole) - stem.len() - 1] == '.');
        assert(ext.contains('.'));
    }
    assert(whole.take(stem.len() as int) =~= stem);
    assert(whole.skip(stem.len() as int + 1) =~= ext);
    lemma_last_dot(name);
    if last_dot(name) >= 0 {
        assert(name.contains(name[last_dot(name)]));
    }
    let hidden = seq!['.'] + name;
    lemma_last_dot(hidden);
    assert(hidden[0] == '.');
    if last_dot(hidden) > 0 {
        assert(name[last_dot(hidden) - 1] == '.');
        assert(name.contains('.'));
    }
}

/// Stem and extension of a path are those of the name of the file.
pub proof fn law_paths_have_the_extension_of_their_file(
    dir: Seq<char>,
    stem: Seq<char>,
    ext: Seq<char>,
)
    requires
        dir.len() > 0,
        stem.len() > 0,
        !stem.contains('/'),
        ext.len() > 0,
        !ext.contains('.'),
        !ext.contains('/'),
    ensures
        stem_of(path_in(dir, stem + seq!['.'] + ext)) == Some(stem),
        ext_of(path_in(dir, stem + seq!['.'] + ext)) == Some(ext),
{
    let name = stem + seq!['.'] + ext;
    assert(name[stem.len() as int + 1] == ext[0]);
    assert(ext.contains(ext[0]));
    assert forall|i: int| 0 <= i < name.len() implies #[trigger] name[i] != '/' by {
        if i < stem.len() {
            assert(stem.contains(name[i]));
        } else if i > stem.len() {
            assert(ext[i - stem.len() - 1] == name[i]);
            assert(ext.contains(name[i]));
        }
    }
    assert(name.len() >= 3);
    law_files_lie_where_they_were_put(dir, name);
    law_names_are_stem_and_extension(stem, ext, Seq::empty());
}

/// A directory of a tree is shown under its own name.
pub proof fn law_directories_are_shown_by_name(
    dir: Seq<char>,
    name: Seq<char>,
    depth: usize,
    has_children: bool,
)
    requires
        dir.len() > 0,
        is_plain_name(name),
    ensures
        ({
            let n = node_for(path_in(dir, name), depth, has_children);
            &&& n.name == name
            &&& n.path == path_in(dir, name)
            &&& n.depth == depth
            &&& n.has_children == has_children
        }),
{
    law_files_lie_where_they_were_put(dir, name);
}

/// A damaged library stays in its directory, under its name with the time behind it. So
/// it is kept under another name than the library itself, and at each time under another.
pub proof fn law_damaged_libraries_stay_beside(
    dir: Seq<char>,
    name: Seq<char>,
    stamp: u64,
)
    requires
        dir.len() > 0,
        dir.last() != '/',
        dir.last() != '.',
        is_plain_name(name),
    ensures
        quarantine_path(dir + seq!['/'] + name, stamp) == dir + seq!['/'] + name + ".bad-"@ + dec(
            stamp as nat,
        ),
{
    lemma_join_splits(dir, name);
    let t = dir + seq!['/'];
    assert(t.drop_last() =~= dir);
    assert(trim_tail(t) == trim_tail(dir));
    assert(trim_tail(dir) == dir);
    assert(quarantine_path(dir + seq!['/'] + name, stamp) =~= dir + seq!['/'] + name + ".bad-"@
        + dec(stamp as nat));
}

/// The data lies where each platform wants it: on Windows in the directory for the data of
/// programs, on a Mac below the home directory, and else in the directory that is set for
/// data, or below the home directory. What the platform does not use makes no difference.
pub proof fn law_data_lies_where_the_platform_wants_it(
    appdata: Option<Seq<char>>,
    home: Option<Seq<char>>,
    xdg: Option<Seq<char>>,
)
    ensures
        base_dir(Platform::Windows, appdata, home, xdg) == (match appdata {
            Some(d) => Ok::<Seq<char>, NoDataDir>(d),
            None => Err(NoDataDir::NoAppData),
        }),
        home is None ==> base_dir(Platform::MacOs, appdata, home, xdg) == Err::<
            Seq<char>,
            NoDataDir,
        >(NoDataDir::NoHome),
        home is Some && home->Some_0.len() > 0 && home->Some_0.last() != '/' ==> base_dir(
            Platform::MacOs,
            appdata,
            home,
            xdg,
        ) == Ok::<Seq<char>, NoDataDir>(home->Some_0 + "/Library/Application Support"@),
        xdg is Some ==> base_dir(Platform::Other, appdata, home, xdg) == Ok::<Seq<char>, NoDataDir>(
            xdg->Some_0,
        ),
        xdg is None && home is Some && home->Some_0.len() > 0 && home->Some_0.last() != '/'
            ==> base_dir(Platform::Other, appdata, home, xdg) == Ok::<Seq<char>, NoDataDir>(
            home->Some_0 + "/.local/share"@,
        ),
        xdg is None && home is None ==> base_dir(Platform::Other, appdata, home, xdg) == Err::<
            Seq<char>,
            NoDataDir,
        >(NoDataDir::NoneAtAll),
{
    reveal_strlit("Library");
    reveal_strlit("Application Support");
    reveal_strlit("/Library/Application Support");
    reveal_strlit(".local");
    reveal_strlit("share");
    reveal_strlit("/.local/share");
    if let Some(h) = home {
        if h.len() > 0 && h.last() != '/' {
            let a = path_in(h, "Library"@);
            assert(a =~= h + seq!['/'] + "Library"@);
            assert(a.last() == "Library"@[6]);
            assert(path_in(a, "Application Support"@) =~= h + "/Library/Application Support"@);
            let b = path_in(h, ".local"@);
            assert(b =~= h + seq!['/'] + ".local"@);
            assert(b.last() == ".local"@[5]);
            assert(path_in(b, "share"@) =~= h + "/.local/share"@);
        }
    }
}

/// Without a choice a folder is scanned with all below it. A choice of no directories
/// means its own files alone, and any other choice just the chosen directories, with all
/// below them.
pub proof fn law_choices_say_what_is_scanned(path: Seq<char>, dirs: Seq<Seq<char>>)
    ensures
        scan_choice(path, None) == (seq![path], false),
        dirs.len() == 0 ==> scan_choice(path, Some(dirs)) == (seq![path], true),
        dirs.len() > 0 ==> scan_choice(path, Some(dirs)) == (dirs, false),
{
}

// ---------------------------------------------------------------------------
// Files on record
// ---------------------------------------------------------------------------

/// A file is read whenever its size or its time of change is not the one on record, or
/// there is none on record; one that cannot be looked at is not.
pub proof fn law_changed_files_are_read(known: FileStat, stat: FileStat)
    ensures
        known.file_size != stat.file_size || known.mtime != stat.mtime ==> look(
            Some(known),
            Some(stat),
        ) == FirstLook::Read(stat),
        known.file_size == stat.file_size && known.mtime == stat.mtime ==> look(
            Some(known),
            Some(stat),
        ) == FirstLook::Unchanged,
        look(None, Some(stat)) == FirstLook::Read(stat),
        look(Some(known), None) == FirstLook::Failed,
        look(None, None) == FirstLook::Failed,
{
}

/// The clock of a camera is off as far as was set last for its serial number; what is set
/// for another camera makes no difference, and nothing is set for a file without a serial
/// number.
pub proof fn law_clocks_are_set_by_serial_number(
    exif: LiteModel,
    offsets: Seq<BodyOffset>,
    entry: BodyOffset,
)
    ensures
        exif.camera_serial == Some(entry.serial@) ==> clock_error(exif, offsets.push(entry))
            == entry.seconds,
        exif.camera_serial != Some(entry.serial@) ==> clock_error(exif, offsets.push(entry))
            == clock_error(exif, offsets),
        exif.camera_serial is None ==> clock_error(exif, offsets) == 0,
        clock_error(exif, Seq::empty()) == 0,
{
    assert(offsets.push(entry).drop_last() =~= offsets);
    assert(offsets.push(entry).last() == entry);
    if let Some(s) = exif.camera_serial {
        assert(offset_in(Seq::<BodyOffset>::empty(), s) == 0);
    }
}

/// Of two files of a shot the RAW file stands for it; of two files of the same kind the
/// one that was recorded first.
pub proof fn law_first_files_stand_for_the_pair(a: Member, b: Member)
    ensures
        a.is_raw && !b.is_raw ==> goes_before(a, b) && !goes_before(b, a),
        a.is_raw == b.is_raw && a.id < b.id ==> goes_before(a, b) && !goes_before(b, a),
{
}

/// The number that some bytes stand for, the lowest first.
pub open spec fn number_in(b: Seq<u8>) -> nat
    decreases b.len(),
{
    if b.len() == 0 {
        0
    } else {
        b[0] as nat + 256 * number_in(b.skip(1))
    }
}

proof fn lemma_le_bytes_read_back(x: nat, n: nat, bound: nat)
    requires
        x < bound,
        bound == vstd::arithmetic::power::pow(256, n),
    ensures
        le_bytes(x, n).len() == n,
        number_in(le_bytes(x, n)) == x,
    decreases n,
{
    reveal(vstd::arithmetic::power::pow);
    if n > 0 {
        let p = vstd::arithmetic::power::pow(256, (n - 1) as nat);
        assert(x / 256 < p) by (nonlinear_arith)
            requires
                x < 256 * p,
        ;
        lemma_le_bytes_read_back(x / 256, (n - 1) as nat, p as nat);
        assert(le_bytes(x, n).skip(1) =~= le_bytes(x / 256, (n - 1) as nat));
        assert(le_bytes(x, n)[0] == (x % 256) as u8);
    }
}

/// What a fingerprint is taken from can be read: eight bytes of the size, eight of the
/// time of change, in which a time before the epoch counts down from the top, and then
/// what the file starts with.
pub proof fn law_fingerprinted_data_reads_back(size: u64, mtime: i64, head: Seq<u8>)
    ensures
        ({
            let d = fingerprint_input(size, mtime, head);
            let time = number_in(d.subrange(8, 16)) as int;
            &&& d.len() == 16 + head.len()
            &&& number_in(d.take(8)) == size
            &&& mtime >= 0 ==> time == mtime
            &&& mtime < 0 ==> time - 0x1_0000_0000_0000_0000 == mtime
            &&& d.skip(16) == head
        }),
{
    let d = fingerprint_input(size, mtime, head);
    let top = 0x1_0000_0000_0000_0000nat;
    assert(vstd::arithmetic::power::pow(256, 8) == top) by {
        reveal_with_fuel(vstd::arithmetic::power::pow, 9);
    }
    lemma_le_bytes_read_back(size as nat, 8, top);
    lemma_le_bytes_read_back(twos(mtime as int), 8, top);
    assert(d.take(8) =~= le_bytes(size as nat, 8));
    assert(d.subrange(8, 16) =~= le_bytes(twos(mtime as int), 8));
    assert(d.skip(16) =~= head);
}

// ---------------------------------------------------------------------------
// Bursts
// ---------------------------------------------------------------------------

/// The bursts are the runs of two photos and more, in their order, as long as there are
/// no more than 300: one more run adds the burst made of it, or nothing.
pub proof fn law_runs_of_two_are_bursts(
    rows: Seq<BurstRow>,
    clusters: Seq<Seq<usize>>,
    c: Seq<usize>,
)
    ensures
        bursts_in(rows, clusters).len() <= 300,
        bursts_in(rows, Seq::empty()).len() == 0,
        c.len() >= 2 && bursts_in(rows, clusters).len() < 300 ==> bursts_in(rows, clusters.push(c))
            == bursts_in(rows, clusters).push(group_for(rows, c)),
        c.len() < 2 || bursts_in(rows, clusters).len() == 300 ==> bursts_in(rows, clusters.push(c))
            == bursts_in(rows, clusters),
    decreases clusters.len(),
{
    assert(clusters.push(c).drop_last() =~= clusters);
    assert(clusters.push(c).last() == c);
    if clusters.len() > 0 {
        law_runs_of_two_are_bursts(rows, clusters.drop_last(), clusters.last());
        assert(clusters.drop_last().push(clusters.last()) =~= clusters);
    }
}

/// A burst lasts from its first photo to its last.
pub proof fn law_bursts_last_from_first_to_last(rows: Seq<BurstRow>, c: Seq<usize>)
    requires
        c.len() > 0,
        forall|i: int| 0 <= i < c.len() ==> #[trigger] c[i] < rows.len(),
        i64::MIN <= rows[c.last() as int].time - rows[c[0] as int].time <= i64::MAX,
    ensures
        rows[c[0] as int].time + group_for(rows, c).span_secs == rows[c.last() as int].time,
{
}

} // verus!
