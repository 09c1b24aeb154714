//! Pairing the files of one shot.
//!
//! One press of the shutter writes a RAW and a JPEG file. They belong together
//! when they lie in the same directory and have the same name up to letter case
//! and extension. Each file keeps its own row; the pair key groups the rows, so a
//! shot with only one of the two files needs no special treatment.
use vstd::prelude::*;

use crate::filepath::{
    ext_of,
    extension,
    file_stem,
    last_dot,
    last_start,
    lemma_join_splits,
    lemma_last_dot,
    lemma_last_start,
    name_of,
    parent,
    parent_of,
    stem_of,
    trim_tail,
};
use crate::text::{ascii_lower, chars_of, opt_view, same, text_of, to_ascii_lower};

verus! {

#[derive(Debug, Clone, Copy, PartialEq, Eq, Structural)]
pub enum FileKind {
    Raw,
    Jpeg,
    Other,
}

/// Extensions of RAW files, in small letters.
pub open spec fn is_raw_ext(e: Seq<char>) -> bool {
    ||| e == "nef"@
    ||| e == "nrw"@
    ||| e == "cr2"@
    ||| e == "cr3"@
    ||| e == "crw"@
    ||| e == "arw"@
    ||| e == "srf"@
    ||| e == "sr2"@
    ||| e == "raf"@
    ||| e == "orf"@
    ||| e == "rw2"@
    ||| e == "pef"@
    ||| e == "srw"@
    ||| e == "raw"@
    ||| e == "rwl"@
    ||| e == "dng"@
    ||| e == "3fr"@
    ||| e == "iiq"@
}

/// Extensions of JPEG files, in small letters.
pub open spec fn is_jpeg_ext(e: Seq<char>) -> bool {
    ||| e == "jpg"@
    ||| e == "jpeg"@
    ||| e == "jpe"@
}

/// Extensions of the other picture files that are taken, in small letters.
pub open spec fn is_other_ext(e: Seq<char>) -> bool {
    ||| e == "heic"@
    ||| e == "heif"@
    ||| e == "tif"@
    ||| e == "tiff"@
    ||| e == "png"@
    ||| e == "avif"@
}

/// The kind of file that an extension in small letters stands for.
pub open spec fn kind_of_ext(e: Seq<char>) -> Option<FileKind> {
    if is_raw_ext(e) {
        Some(FileKind::Raw)
    } else if is_jpeg_ext(e) {
        Some(FileKind::Jpeg)
    } else if is_other_ext(e) {
        Some(FileKind::Other)
    } else {
        None
    }
}

impl FileKind {
    pub open spec fn label(self) -> Seq<char> {
        match self {
            FileKind::Raw => "raw"@,
            FileKind::Jpeg => "jpeg"@,
            FileKind::Other => "other"@,
        }
    }

    /// The name under which the kind is stored.
    pub fn as_str(self) -> (r: &'static str)
        ensures
            r@ == self.label(),
    {
        match self {
            FileKind::Raw => "raw",
            FileKind::Jpeg => "jpeg",
            FileKind::Other => "other",
        }
    }
}

fn raw_ext(e: &str) -> (r: bool)
    ensures
        r == is_raw_ext(e@),
{
    same(e, "nef")
        || same(e, "nrw")
        || same(e, "cr2")
        || same(e, "cr3")
        || same(e, "crw")
        || same(e, "arw")
        || same(e, "srf")
        || same(e, "sr2")
        || same(e, "raf")
        || same(e, "orf")
        || same(e, "rw2")
        || same(e, "pef")
        || same(e, "srw")
        || same(e, "raw")
        || same(e, "rwl")
        || same(e, "dng")
        || same(e, "3fr")
        || same(e, "iiq")
}

fn jpeg_ext(e: &str) -> (r: bool)
    ensures
        r == is_jpeg_ext(e@),
{
    same(e, "jpg")
        || same(e, "jpeg")
        || same(e, "jpe")
}

fn other_ext(e: &str) -> (r: bool)
    ensures
        r == is_other_ext(e@),
{
    same(e, "heic")
        || same(e, "heif")
        || same(e, "tif")
        || same(e, "tiff")
        || same(e, "png")
        || same(e, "avif")
}

/// The kind of file that an extension stands for, in any letter case. A file of
/// no known kind is passed over.
pub fn classify(ext: &str) -> (r: Option<FileKind>)
    ensures
        r == kind_of_ext(ascii_lower(ext@)),
{
    let low = to_ascii_lower(ext);
    let e = low.as_str();
    if raw_ext(e) {
        Some(FileKind::Raw)
    } else if jpeg_ext(e) {
        Some(FileKind::Jpeg)
    } else if other_ext(e) {
        Some(FileKind::Other)
    } else {
        None
    }
}

/// `s` without the separators of either style that it ends with.
pub open spec fn trim_seps(s: Seq<char>) -> Seq<char>
    decreases s.len(),
{
    if s.len() > 0 && (s.last() == '/' || s.last() == '\\') {
        trim_seps(s.drop_last())
    } else {
        s
    }
}

pub fn trim_separators(s: &str) -> (r: String)
    ensures
        r@ == trim_seps(s@),
{
    let v = chars_of(s);
    let mut e: usize = v.len();
    proof {
        assert(v@.take(e as int) =~= v@);
    }
    while e > 0 && (v[e - 1] == '/' || v[e - 1] == '\\')
        invariant
            e <= v@.len(),
            v@ == s@,
            trim_seps(s@) == trim_seps(v@.take(e as int)),
        decreases e,
    {
        proof {
            assert(v@.take(e as int).drop_last() =~= v@.take(e - 1));
        }
        e = e - 1;
    }
    assert(v@.subrange(0, e as int) =~= v@.take(e as int));
    text_of(&v, 0, e)
}

/// The key that the files of one shot share: the directory and the name without
/// extension, both in small letters.
pub open spec fn key_of(p: Seq<char>) -> Option<Seq<char>> {
    match (stem_of(p), parent_of(p)) {
        (Some(stem), Some(dir)) => Some(
            trim_seps(ascii_lower(dir)) + seq!['/'] + ascii_lower(stem),
        ),
        _ => None,
    }
}

pub fn pair_key(path: &str) -> (r: Option<String>)
    ensures
        opt_view(r) == key_of(path@),
{
    let stem = match file_stem(path) {
        Some(s) => to_ascii_lower(s.as_str()),
        None => return None,
    };
    let dir = match parent(path) {
        Some(s) => to_ascii_lower(s.as_str()),
        None => return None,
    };
    let mut key = trim_separators(dir.as_str());
    key.push('/');
    key.push_str(stem.as_str());
    assert(key@ =~= trim_seps(dir@) + seq!['/'] + stem@);
    Some(key)
}

/// The extension of `path` in small letters; empty where it has none.
pub open spec fn ext_lower_of(p: Seq<char>) -> Seq<char> {
    match ext_of(p) {
        Some(e) => ascii_lower(e),
        None => Seq::empty(),
    }
}

pub fn ext_lower(path: &str) -> (r: String)
    ensures
        r@ == ext_lower_of(path@),
{
    match extension(path) {
        Some(e) => to_ascii_lower(e.as_str()),
        None => {
            let e = String::new();
            assert(e@ =~= Seq::<char>::empty());
            e
        },
    }
}

/// The files of one shot share a key: names in one directory that differ only in
/// letter case and extension are paired.
pub proof fn law_one_shot_one_key(
    dir: Seq<char>,
    stem1: Seq<char>,
    ext1: Seq<char>,
    stem2: Seq<char>,
    ext2: Seq<char>,
)
    requires
        stem1.len() > 0,
        !stem1.contains('/'),
        stem2.len() > 0,
        !stem2.contains('/'),
        ext1.len() > 0,
        !ext1.contains('/') && !ext1.contains('.'),
        ext2.len() > 0,
        !ext2.contains('/') && !ext2.contains('.'),
        ascii_lower(stem1) == ascii_lower(stem2),
    ensures
        key_of(dir + seq!['/'] + (stem1 + seq!['.'] + ext1)) is Some,
        key_of(dir + seq!['/'] + (stem1 + seq!['.'] + ext1)) == key_of(
            dir + seq!['/'] + (stem2 + seq!['.'] + ext2),
        ),
{
    lemma_stem_of_joined(dir, stem1, ext1);
    lemma_stem_of_joined(dir, stem2, ext2);
}

proof fn lemma_stem_of_joined(dir: Seq<char>, stem: Seq<char>, ext: Seq<char>)
    requires
        stem.len() > 0,
        !stem.contains('/'),
        ext.len() > 0,
        !ext.contains('/') && !ext.contains('.'),
    ensures
        stem_of(dir + seq!['/'] + (stem + seq!['.'] + ext)) == Some(stem),
        parent_of(dir + seq!['/'] + (stem + seq!['.'] + ext)) == Some(
            trim_tail(dir + seq!['/']),
        ),
{
    let name = stem + seq!['.'] + ext;
    assert(name.len() >= 3);
    assert forall|j: int| 0 <= j < name.len() implies name[j] != '/' by {
        if j < stem.len() {
            assert(name[j] == stem[j]);
            assert(stem.contains(stem[j]));
        } else if j > stem.len() {
            assert(name[j] == ext[j - stem.len() - 1]);
            assert(ext.contains(ext[j - stem.len() - 1]));
        }
    }
    assert(!name.contains('/'));
    lemma_join_splits(dir, name);
    lemma_last_dot(name);
    let k = last_dot(name);
    assert(name[stem.len() as int] == '.');
    assert(k == stem.len()) by {
        if k > stem.len() {
            assert(name[k] == ext[k - stem.len() - 1]);
            assert(ext.contains(ext[k - stem.len() - 1]));
        }
    }
    assert(name.take(k) =~= stem);
}

/// Files with the same key are files of one shot: their names agree up to letter
/// case and extension, and so do their directories up to letter case. Different
/// shots, and equal names in different directories, do not collide.
pub proof fn law_one_key_one_shot(p: Seq<char>, q: Seq<char>)
    requires
        key_of(p) is Some,
        key_of(p) == key_of(q),
    ensures
        ascii_lower(stem_of(p)->Some_0) == ascii_lower(stem_of(q)->Some_0),
        trim_seps(ascii_lower(parent_of(p)->Some_0)) == trim_seps(
            ascii_lower(parent_of(q)->Some_0),
        ),
{
    let s = ascii_lower(stem_of(p)->Some_0);
    let t = ascii_lower(stem_of(q)->Some_0);
    let a = trim_seps(ascii_lower(parent_of(p)->Some_0));
    let b = trim_seps(ascii_lower(parent_of(q)->Some_0));
    lemma_stem_has_no_separator(p);
    lemma_stem_has_no_separator(q);
    let key = a + seq!['/'] + s;
    assert(key == b + seq!['/'] + t);
    assert(key[a.len() as int] == '/');
    assert(key[b.len() as int] == '/');
    if s.len() < t.len() {
        assert(key[a.len() as int] == t[a.len() - b.len() - 1]);
    } else if t.len() < s.len() {
        assert(key[b.len() as int] == s[b.len() - a.len() - 1]);
    }
    assert(s.len() == t.len());
    assert(s =~= key.skip(a.len() as int + 1));
    assert(t =~= key.skip(b.len() as int + 1));
    assert(a =~= key.take(a.len() as int));
    assert(b =~= key.take(b.len() as int));
}

proof fn lemma_stem_has_no_separator(p: Seq<char>)
    requires
        stem_of(p) is Some,
    ensures
        forall|j: int|
            0 <= j < stem_of(p)->Some_0.len() ==> ascii_lower(stem_of(p)->Some_0)[j] != '/',
{
    let t = trim_tail(p);
    lemma_last_start(t);
    let name = name_of(p)->Some_0;
    lemma_last_dot(name);
    let stem = stem_of(p)->Some_0;
    assert forall|j: int| 0 <= j < stem.len() implies ascii_lower(stem)[j] != '/' by {
        assert(stem[j] == name[j]);
        assert(name[j] == t[last_start(t) + j]);
    }
}

// ---------------------------------------------------------------------------
// The file that stands for a pair
// ---------------------------------------------------------------------------

/// One file of a pair: its row number and whether it is a RAW file.
#[derive(Debug, Clone, Copy, PartialEq, Eq, Structural)]
pub struct Member {
    pub id: i64,
    pub is_raw: bool,
}

/// Whether `a` stands for the pair before `b` does: RAW first, then the file that
/// was recorded first.
pub open spec fn goes_before(a: Member, b: Member) -> bool {
    if a.is_raw != b.is_raw {
        a.is_raw
    } else {
        a.id <= b.id
    }
}

/// The file that stands for the pair: the first in the order of `goes_before`.
pub fn pick_primary(members: &Vec<Member>) -> (r: Option<i64>)
    ensures
        r is None <==> members@.len() == 0,
        r matches Some(id) ==> exists|k: int|
            {
                &&& 0 <= k < members@.len()
                &&& (#[trigger] members@[k]).id == id
                &&& forall|j: int|
                    0 <= j < members@.len() ==> goes_before(members@[k], #[trigger] members@[j])
            },
{
    if members.len() == 0 {
        return None;
    }
    let mut best: usize = 0;
    for i in 1..members.len()
        invariant
            0 <= best < members@.len(),
            best < i,
            forall|j: int|
                0 <= j < i ==> goes_before(members@[best as int], #[trigger] members@[j]),
    {
        let a = members[best];
        let b = members[i];
        let keep = if a.is_raw != b.is_raw {
            a.is_raw
        } else {
            a.id <= b.id
        };
        if !keep {
            best = i;
        }
    }
    Some(members[best].id)
}

/// A pair that has a RAW file is never stood for by another file, and one with
/// distinct row numbers is stood for by exactly one.
pub proof fn law_raw_stands_for_the_pair(members: Seq<Member>, k: int, j: int)
    requires
        0 <= k < members.len(),
        0 <= j < members.len(),
        forall|i: int| 0 <= i < members.len() ==> goes_before(members[k], #[trigger] members[i]),
        forall|a: int, b: int|
            0 <= a < b < members.len() ==> (#[trigger] members[a]).id != (
            #[trigger] members[b]).id,
    ensures
        members[j].is_raw ==> members[k].is_raw,
        (forall|i: int| 0 <= i < members.len() ==> goes_before(members[j], #[trigger] members[i]))
            ==> j == k,
{
    assert(goes_before(members[k], members[j]));
    if forall|i: int| 0 <= i < members.len() ==> goes_before(members[j], #[trigger] members[i]) {
        assert(goes_before(members[j], members[k]));
    }
}

} // verus!
