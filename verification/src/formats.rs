//! Which camera makers write which RAW format, and that all of them are known.
use vstd::prelude::*;

use crate::pairing::{kind_of_ext, FileKind};

verus! {

/// Those whose RAW formats are known.
pub enum Maker {
    Nikon,
    Canon,
    Sony,
    Fujifilm,
    Olympus,
    Panasonic,
    Pentax,
    Samsung,
    Leica,
    Adobe,
    Hasselblad,
    PhaseOne,
}

/// A maker writes RAW files with this extension.
pub open spec fn writes(m: Maker, e: Seq<char>) -> bool {
    match m {
        Maker::Nikon => e == "nef"@ || e == "nrw"@,
        Maker::Canon => e == "cr2"@ || e == "cr3"@ || e == "crw"@,
        Maker::Sony => e == "arw"@ || e == "srf"@ || e == "sr2"@,
        Maker::Fujifilm => e == "raf"@,
        Maker::Olympus => e == "orf"@,
        Maker::Panasonic => e == "rw2"@,
        Maker::Pentax => e == "pef"@,
        Maker::Samsung => e == "srw"@,
        Maker::Leica => e == "raw"@ || e == "rwl"@,
        Maker::Adobe => e == "dng"@,
        Maker::Hasselblad => e == "3fr"@,
        Maker::PhaseOne => e == "iiq"@,
    }
}

/// Compressed pictures that stand beside a RAW file.
pub open spec fn is_jpeg_name(e: Seq<char>) -> bool {
    e == "jpg"@ || e == "jpeg"@ || e == "jpe"@
}

/// Other pictures that are taken into the library.
pub open spec fn is_other_picture(e: Seq<char>) -> bool {
    e == "heic"@ || e == "heif"@ || e == "tif"@ || e == "tiff"@ || e == "png"@ || e == "avif"@
}

proof fn lemma_jpegs_are_not_raw()
    ensures
        forall|m: Maker, e: Seq<char>| #[trigger] writes(m, e) ==> !is_jpeg_name(e)
            && !is_other_picture(e),
        forall|e: Seq<char>| #[trigger] is_jpeg_name(e) ==> !is_other_picture(e),
{
    reveal_strlit("nef");
    reveal_strlit("nrw");
    reveal_strlit("cr2");
    reveal_strlit("cr3");
    reveal_strlit("crw");
    reveal_strlit("arw");
    reveal_strlit("srf");
    reveal_strlit("sr2");
    reveal_strlit("raf");
    reveal_strlit("orf");
    reveal_strlit("rw2");
    reveal_strlit("pef");
    reveal_strlit("srw");
    reveal_strlit("raw");
    reveal_strlit("rwl");
    reveal_strlit("dng");
    reveal_strlit("3fr");
    reveal_strlit("iiq");
    reveal_strlit("jpg");
    reveal_strlit("jpeg");
    reveal_strlit("jpe");
    reveal_strlit("heic");
    reveal_strlit("heif");
    reveal_strlit("tif");
    reveal_strlit("tiff");
    reveal_strlit("png");
    reveal_strlit("avif");
    assert("jpg"@[0] == 'j' && "jpe"@[0] == 'j' && "jpeg"@[0] == 'j');
    assert("heic"@.len() == 4 && "heif"@.len() == 4 && "tiff"@.len() == 4 && "avif"@.len() == 4);
    assert("heic"@[0] == 'h' && "heif"@[0] == 'h' && "tiff"@[0] == 't' && "avif"@[0] == 'a');
    assert("tif"@[0] == 't' && "png"@[0] == 'p' && "png"@[1] == 'n');
    assert("pef"@[0] == 'p' && "pef"@[1] == 'e');
    assert("nef"@[0] == 'n' && "nrw"@[0] == 'n' && "cr2"@[0] == 'c' && "cr3"@[0] == 'c');
    assert("crw"@[0] == 'c' && "arw"@[0] == 'a' && "srf"@[0] == 's' && "sr2"@[0] == 's');
    assert("raf"@[0] == 'r' && "orf"@[0] == 'o' && "rw2"@[0] == 'r' && "srw"@[0] == 's');
    assert("raw"@[0] == 'r' && "rwl"@[0] == 'r' && "dng"@[0] == 'd' && "3fr"@[0] == '3');
    assert("iiq"@[0] == 'i' && "arw"@.len() == 3);
}

/// A file is a RAW file exactly where one of the makers writes files with its extension;
/// no extension is of two kinds; and what is of no kind is not taken into the library.
pub proof fn law_every_maker_is_known(e: Seq<char>)
    ensures
        kind_of_ext(e) == Some(FileKind::Raw) <==> exists|m: Maker| #[trigger] writes(m, e),
        kind_of_ext(e) == Some(FileKind::Jpeg) <==> is_jpeg_name(e),
        kind_of_ext(e) == Some(FileKind::Other) <==> is_other_picture(e),
{
    lemma_jpegs_are_not_raw();
    if kind_of_ext(e) == Some(FileKind::Raw) {
        assert(writes(Maker::Nikon, e) || writes(Maker::Canon, e) || writes(Maker::Sony, e)
            || writes(Maker::Fujifilm, e) || writes(Maker::Olympus, e) || writes(
            Maker::Panasonic,
            e,
        ) || writes(Maker::Pentax, e) || writes(Maker::Samsung, e) || writes(Maker::Leica, e)
            || writes(Maker::Adobe, e) || writes(Maker::Hasselblad, e) || writes(
            Maker::PhaseOne,
            e,
        ));
    }
}

} // verus!
