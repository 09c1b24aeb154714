//! What is on record of a photo: the columns that are read, and the work that is left.
use vstd::prelude::*;

use crate::db::{
    bodies_text,
    COUNT_UNJUDGED,
    COUNT_UNSEEN,
    DETAIL_HEAD,
    DETAIL_MID,
    DETAIL_TAIL,
    SELECT_UNJUDGED,
    SELECT_UNSEEN,
    WRITE_EYES,
    WRITE_METRICS,
};
use crate::facets::{cameras_text, or_none, primary_in};
use crate::filter::FROM_PHOTOS;
use crate::text::joined;

verus! {

/// The first columns of everything on record of a photo, in front of its time.
pub open spec fn detail_head_columns() -> Seq<Seq<char>> {
    seq![
        "p.path"@,
        "p.pair_key"@,
        "p.file_kind"@,
        "p.is_primary"@,
        "p.file_size"@,
        "p.width"@,
        "p.height"@,
    ]
}

/// The columns behind the time, which first say where the time is from.
pub open spec fn detail_mid_columns() -> Seq<Seq<char>> {
    seq![
        "CASE WHEN p.taken_at_corrected IS NOT NULL THEN 'exif' ELSE 'mtime' END"@,
        "p.camera_model"@,
        "p.camera_serial"@,
        "p.lens"@,
        "p.focal_len"@,
        "p.aperture"@,
        "p.shutter"@,
        "p.iso"@,
        "p.orientation"@,
        "p.exif_ok"@,
        "strftime('%Y-%m-%d %H:%M:%S', p.indexed_at, 'unixepoch', 'localtime')"@,
        "p.sharpness"@,
        "p.overexposed"@,
        "p.underexposed"@,
        "p.decode_path"@,
        "p.fingerprint"@,
        "p.content_hash"@,
        "p.phash"@,
    ]
}

/// The columns behind the marks.
pub open spec fn detail_tail_columns() -> Seq<Seq<char>> {
    seq![
        "p.faces"@,
        "p.eye_ratio"@,
    ]
}

/// The columns of everything on record of a photo, by name and in the order in which they
/// are read.
pub proof fn law_details_are_read_by_name()
    ensures
        DETAIL_HEAD@ == "SELECT "@ + joined(detail_head_columns(), ", "@) + ", "@,
        DETAIL_MID@ == ", "@ + joined(detail_mid_columns(), ", "@) + ", "@,
        DETAIL_TAIL@ == ", "@ + joined(detail_tail_columns(), ", "@) + " "@,
{
    lemma_detail_head();
    lemma_detail_mid();
    lemma_detail_tail();
}

proof fn lemma_detail_head()
    ensures
        DETAIL_HEAD@ == "SELECT "@ + joined(detail_head_columns(), ", "@) + ", "@,
{
    let c = detail_head_columns();
    let sep = ", "@;
    reveal_strlit("SELECT p.path, p.pair_key, p.file_kind, p.is_primary, p.file_size, p.width, p.height, ");
    reveal_strlit("p.path");
    reveal_strlit("p.pair_key");
    reveal_strlit("p.file_kind");
    reveal_strlit("p.is_primary");
    reveal_strlit("p.file_size");
    reveal_strlit("p.width");
    reveal_strlit("p.height");
    reveal_strlit("SELECT ");
    reveal_strlit(", ");
    reveal_strlit(" ");
    reveal_with_fuel(joined, 8);
    assert(c.take(7).drop_last() =~= c.take(6));
    assert(c.take(6).drop_last() =~= c.take(5));
    assert(c.take(5).drop_last() =~= c.take(4));
    assert(c.take(4).drop_last() =~= c.take(3));
    assert(c.take(3).drop_last() =~= c.take(2));
    assert(c.take(2).drop_last() =~= c.take(1));
    assert(c.take(7) =~= c);
    assert(joined(c.take(1), sep) == c[0]);
    assert(joined(c.take(2), sep) == joined(c.take(1), sep) + sep + c[1]);
    assert(joined(c.take(3), sep) == joined(c.take(2), sep) + sep + c[2]);
    assert(joined(c.take(4), sep) == joined(c.take(3), sep) + sep + c[3]);
    assert(joined(c.take(5), sep) == joined(c.take(4), sep) + sep + c[4]);
    assert(joined(c.take(6), sep) == joined(c.take(5), sep) + sep + c[5]);
    assert(joined(c.take(7), sep) == joined(c.take(6), sep) + sep + c[6]);
    assert(DETAIL_HEAD@ =~= "SELECT "@ + joined(c, sep) + ", "@);
}

#[verifier::rlimit(60)]
#[verifier::spinoff_prover]
proof fn lemma_detail_mid()
    ensures
        DETAIL_MID@ == ", "@ + joined(detail_mid_columns(), ", "@) + ", "@,
{
    let c = detail_mid_columns();
    let sep = ", "@;
    reveal_strlit(", CASE WHEN p.taken_at_corrected IS NOT NULL THEN 'exif' ELSE 'mtime' END, p.camera_model, p.camera_serial, p.lens, p.focal_len, p.aperture, p.shutter, p.iso, p.orientation, p.exif_ok, strftime('%Y-%m-%d %H:%M:%S', p.indexed_at, 'unixepoch', 'localtime'), p.sharpness, p.overexposed, p.underexposed, p.decode_path, p.fingerprint, p.content_hash, p.phash, ");
    reveal_strlit("CASE WHEN p.taken_at_corrected IS NOT NULL THEN 'exif' ELSE 'mtime' END");
    reveal_strlit("p.camera_model");
    reveal_strlit("p.camera_serial");
    reveal_strlit("p.lens");
    reveal_strlit("p.focal_len");
    reveal_strlit("p.aperture");
    reveal_strlit("p.shutter");
    reveal_strlit("p.iso");
    reveal_strlit("p.orientation");
    reveal_strlit("p.exif_ok");
    reveal_strlit("strftime('%Y-%m-%d %H:%M:%S', p.indexed_at, 'unixepoch', 'localtime')");
    reveal_strlit("p.sharpness");
    reveal_strlit("p.overexposed");
    reveal_strlit("p.underexposed");
    reveal_strlit("p.decode_path");
    reveal_strlit("p.fingerprint");
    reveal_strlit("p.content_hash");
    reveal_strlit("p.phash");
    reveal_strlit("SELECT ");
    reveal_strlit(", ");
    reveal_strlit(" ");
    assert(c.take(18).drop_last() =~= c.take(17));
    assert(c.take(17).drop_last() =~= c.take(16));
    assert(c.take(16).drop_last() =~= c.take(15));
    assert(c.take(15).drop_last() =~= c.take(14));
    assert(c.take(14).drop_last() =~= c.take(13));
    assert(c.take(13).drop_last() =~= c.take(12));
    assert(c.take(12).drop_last() =~= c.take(11));
    assert(c.take(11).drop_last() =~= c.take(10));
    assert(c.take(10).drop_last() =~= c.take(9));
    assert(c.take(9).drop_last() =~= c.take(8));
    assert(c.take(8).drop_last() =~= c.take(7));
    assert(c.take(7).drop_last() =~= c.take(6));
    assert(c.take(6).drop_last() =~= c.take(5));
    assert(c.take(5).drop_last() =~= c.take(4));
    assert(c.take(4).drop_last() =~= c.take(3));
    assert(c.take(3).drop_last() =~= c.take(2));
    assert(c.take(2).drop_last() =~= c.take(1));
    assert(c.take(18) =~= c);
    assert(joined(c.take(1), sep) == c[0]);
    assert(joined(c.take(2), sep) == joined(c.take(1), sep) + sep + c[1]);
    assert(joined(c.take(3), sep) == joined(c.take(2), sep) + sep + c[2]);
    assert(joined(c.take(4), sep) == joined(c.take(3), sep) + sep + c[3]);
    assert(joined(c.take(5), sep) == joined(c.take(4), sep) + sep + c[4]);
    assert(joined(c.take(6), sep) == joined(c.take(5), sep) + sep + c[5]);
    assert(joined(c.take(7), sep) == joined(c.take(6), sep) + sep + c[6]);
    assert(joined(c.take(8), sep) == joined(c.take(7), sep) + sep + c[7]);
    assert(joined(c.take(9), sep) == joined(c.take(8), sep) + sep + c[8]);
    assert(joined(c.take(10), sep) == joined(c.take(9), sep) + sep + c[9]);
    assert(joined(c.take(11), sep) == joined(c.take(10), sep) + sep + c[10]);
    assert(joined(c.take(12), sep) == joined(c.take(11), sep) + sep + c[11]);
    assert(joined(c.take(13), sep) == joined(c.take(12), sep) + sep + c[12]);
    assert(joined(c.take(14), sep) == joined(c.take(13), sep) + sep + c[13]);
    assert(joined(c.take(15), sep) == joined(c.take(14), sep) + sep + c[14]);
    assert(joined(c.take(16), sep) == joined(c.take(15), sep) + sep + c[15]);
    assert(joined(c.take(17), sep) == joined(c.take(16), sep) + sep + c[16]);
    assert(joined(c.take(18), sep) == joined(c.take(17), sep) + sep + c[17]);
    assert(DETAIL_MID@ =~= ", "@ + joined(c, sep) + ", "@);
}

proof fn lemma_detail_tail()
    ensures
        DETAIL_TAIL@ == ", "@ + joined(detail_tail_columns(), ", "@) + " "@,
{
    let c = detail_tail_columns();
    let sep = ", "@;
    reveal_strlit(", p.faces, p.eye_ratio ");
    reveal_strlit("p.faces");
    reveal_strlit("p.eye_ratio");
    reveal_strlit("SELECT ");
    reveal_strlit(", ");
    reveal_strlit(" ");
    reveal_with_fuel(joined, 3);
    assert(c.take(2).drop_last() =~= c.take(1));
    assert(c.take(2) =~= c);
    assert(joined(c.take(1), sep) == c[0]);
    assert(joined(c.take(2), sep) == joined(c.take(1), sep) + sep + c[1]);
    assert(DETAIL_TAIL@ =~= ", "@ + joined(c, sep) + " "@);
}

/// The photos whose column has no value yet, one for each shot.
pub open spec fn lists_without(column: Seq<char>) -> Seq<char> {
    "SELECT p.id, p.path FROM photos p WHERE p.is_primary = 1 AND p."@ + column
        + " IS NULL ORDER BY p.id"@
}

/// The number of photos whose column has no value yet, one for each shot.
pub open spec fn counts_without(column: Seq<char>) -> Seq<char> {
    "SELECT COUNT(*) FROM photos WHERE is_primary = 1 AND "@ + column + " IS NULL"@
}

/// The photos that are listed to be judged, and that are counted as left, are those
/// without a value in the column that judging writes first: so a photo that was judged is
/// not listed again. The same holds for looking at eyes.
pub proof fn law_done_photos_are_not_listed_again()
    ensures
        SELECT_UNJUDGED@ == lists_without("sharpness"@),
        COUNT_UNJUDGED@ == counts_without("sharpness"@),
        WRITE_METRICS@ == "UPDATE photos SET "@ + "sharpness"@
            + " = ?1, overexposed = ?2, underexposed = ?3 WHERE id = ?4"@,
        SELECT_UNSEEN@ == lists_without("faces"@),
        COUNT_UNSEEN@ == counts_without("faces"@),
        WRITE_EYES@ == "UPDATE photos SET "@ + "faces"@ + " = ?1, eye_ratio = ?2 WHERE id = ?3"@,
{
    reveal_strlit("sharpness");
    reveal_strlit("faces");
    reveal_strlit("SELECT p.id, p.path FROM photos p WHERE p.is_primary = 1 AND p.");
    reveal_strlit(" IS NULL ORDER BY p.id");
    reveal_strlit("SELECT COUNT(*) FROM photos WHERE is_primary = 1 AND ");
    reveal_strlit(" IS NULL");
    reveal_strlit("UPDATE photos SET ");
    reveal_strlit(" = ?1, overexposed = ?2, underexposed = ?3 WHERE id = ?4");
    reveal_strlit(" = ?1, eye_ratio = ?2 WHERE id = ?3");
    reveal_strlit("SELECT p.id, p.path FROM photos p WHERE p.is_primary = 1 AND p.sharpness IS NULL ORDER BY p.id");
    reveal_strlit("SELECT COUNT(*) FROM photos WHERE is_primary = 1 AND sharpness IS NULL");
    reveal_strlit("UPDATE photos SET sharpness = ?1, overexposed = ?2, underexposed = ?3 WHERE id = ?4");
    reveal_strlit("SELECT p.id, p.path FROM photos p WHERE p.is_primary = 1 AND p.faces IS NULL ORDER BY p.id");
    reveal_strlit("SELECT COUNT(*) FROM photos WHERE is_primary = 1 AND faces IS NULL");
    reveal_strlit("UPDATE photos SET faces = ?1, eye_ratio = ?2 WHERE id = ?3");
    assert(SELECT_UNJUDGED@ =~= lists_without("sharpness"@));
    assert(COUNT_UNJUDGED@ =~= counts_without("sharpness"@));
    assert(WRITE_METRICS@ =~= "UPDATE photos SET "@ + "sharpness"@
        + " = ?1, overexposed = ?2, underexposed = ?3 WHERE id = ?4"@);
    assert(SELECT_UNSEEN@ =~= lists_without("faces"@));
    assert(COUNT_UNSEEN@ =~= counts_without("faces"@));
    assert(WRITE_EYES@ =~= "UPDATE photos SET "@ + "faces"@
        + " = ?1, eye_ratio = ?2 WHERE id = ?3"@);
}

/// The cameras whose clocks can be set are those of the side bar: grouped and listed in the
/// same way, each with its offset, which is none where it was never set.
pub proof fn law_clocks_belong_to_the_listed_cameras(scope: Seq<char>)
    ensures
        ({
            let head = "SELECT "@ + or_none("p.camera_serial"@)
                + " AS serial, COALESCE(MAX(p.camera_model), '未知机身') AS model, "@;
            let tail = primary_in(scope) + " GROUP BY serial ORDER BY n DESC, model"@;
            let off =
                "COALESCE((SELECT cb.time_offset_seconds FROM camera_bodies cb WHERE cb.serial = p.camera_serial), 0) AS off, "@;
            &&& cameras_text(scope) == head + "COUNT(*) AS n "@ + "FROM photos p"@ + tail
            &&& bodies_text(scope) == head + off + "COUNT(*) AS n "@ + FROM_PHOTOS@ + tail
        }),
{
    reveal_strlit("SELECT ");
    reveal_strlit("COALESCE(");
    reveal_strlit("p.camera_serial");
    reveal_strlit(", '__none__')");
    reveal_strlit(" AS serial, COALESCE(MAX(p.camera_model), '未知机身') AS model, ");
    reveal_strlit("COUNT(*) AS n ");
    reveal_strlit("FROM photos p");
    reveal_strlit(
        " AS serial, COALESCE(MAX(p.camera_model), '未知机身') AS model, COUNT(*) AS n FROM photos p",
    );
    reveal_strlit(
        "COALESCE((SELECT cb.time_offset_seconds FROM camera_bodies cb WHERE cb.serial = p.camera_serial), 0) AS off, ",
    );
    reveal_strlit(
        "SELECT COALESCE(p.camera_serial, '__none__') AS serial, COALESCE(MAX(p.camera_model), '未知机身') AS model, COALESCE((SELECT cb.time_offset_seconds FROM camera_bodies cb WHERE cb.serial = p.camera_serial), 0) AS off, COUNT(*) AS n ",
    );
    let head = "SELECT "@ + or_none("p.camera_serial"@)
        + " AS serial, COALESCE(MAX(p.camera_model), '未知机身') AS model, "@;
    let tail = primary_in(scope) + " GROUP BY serial ORDER BY n DESC, model"@;
    let off =
        "COALESCE((SELECT cb.time_offset_seconds FROM camera_bodies cb WHERE cb.serial = p.camera_serial), 0) AS off, "@;
    assert(" AS serial, COALESCE(MAX(p.camera_model), '未知机身') AS model, COUNT(*) AS n FROM photos p"@
        =~= " AS serial, COALESCE(MAX(p.camera_model), '未知机身') AS model, "@ + "COUNT(*) AS n "@
        + "FROM photos p"@);
    assert("SELECT COALESCE(p.camera_serial, '__none__') AS serial, COALESCE(MAX(p.camera_model), '未知机身') AS model, COALESCE((SELECT cb.time_offset_seconds FROM camera_bodies cb WHERE cb.serial = p.camera_serial), 0) AS off, COUNT(*) AS n "@
        =~= head + off + "COUNT(*) AS n "@);
    assert(cameras_text(scope) =~= head + "COUNT(*) AS n "@ + "FROM photos p"@ + tail);
    assert(bodies_text(scope) =~= head + off + "COUNT(*) AS n "@ + FROM_PHOTOS@ + tail);
}

} // verus!
