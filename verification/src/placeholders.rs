//! Every query has as many placeholders as it is given values.
//!
//! The texts of queries are put together from parts, and the values are collected
//! beside them. Nothing but care keeps the two in step, so it is proved here.
use vstd::prelude::*;

use crate::bursts::bursts_text;
use crate::export::{export_text, EXPORT_TAIL};
use crate::facets::{
    between_text,
    cameras_text,
    colors_text,
    counted,
    days_text,
    decisions_text,
    distinct_days_text,
    lenses_text,
    or_none,
    pair_states_text,
    primary_in,
    progress_text,
    quality_text,
    range_text,
    ranges_text,
    stars_text,
    total_text,
    undated_text,
    DAY_FACET_LIMIT,
    LARGEST_REAL,
};
use crate::filter::{
    by_color,
    by_decision,
    by_focal,
    by_ids,
    by_iso,
    by_pair_state,
    by_quality,
    by_scope,
    by_search,
    by_stars,
    by_value,
    conditions,
    count_text,
    day_column,
    doubled,
    holders,
    ids_text,
    order_text,
    page_text,
    prefixes_in,
    scope_suffix,
    scope_text,
    sort_key,
    where_text,
    ArgModel,
    CondModel,
    FilterModel,
    BLUR_THRESHOLD,
    CARD_HEAD,
    CARD_MID,
    CARD_TAIL,
    CLOSED_THRESHOLD,
    COLOR,
    DAY_KEY,
    DECISION,
    FROM_PHOTOS,
    HAS_JPG,
    HAS_RAW,
    OVEREXPOSED_THRESHOLD,
    SCOPE_TEST,
    STARS,
    TIME_TEXT,
    UNDEREXPOSED_THRESHOLD,
};
use crate::text::{dec, digit, joined};

verus! {

/// The number of placeholders in `s` from position `i` on.
pub open spec fn holes_from(s: Seq<char>, i: int) -> nat
    decreases s.len() - i,
{
    if i < 0 || i >= s.len() {
        0
    } else {
        (if s[i] == '?' {
            1nat
        } else {
            0
        }) + holes_from(s, i + 1)
    }
}

/// The number of placeholders in a query.
pub open spec fn holes(s: Seq<char>) -> nat {
    holes_from(s, 0)
}

proof fn lemma_holes_tail(a: Seq<char>, b: Seq<char>, i: int)
    requires
        0 <= i <= b.len(),
    ensures
        holes_from(a + b, a.len() + i) == holes_from(b, i),
    decreases b.len() - i,
{
    if i < b.len() {
        lemma_holes_tail(a, b, i + 1);
        assert((a + b)[a.len() + i] == b[i]);
    }
}

proof fn lemma_holes_head(a: Seq<char>, b: Seq<char>, i: int)
    requires
        0 <= i <= a.len(),
    ensures
        holes_from(a + b, i) == holes_from(a, i) + holes(b),
    decreases a.len() - i,
{
    if i < a.len() {
        lemma_holes_head(a, b, i + 1);
        assert((a + b)[i] == a[i]);
    } else {
        lemma_holes_tail(a, b, 0);
    }
}

/// Two texts one after the other have the placeholders of both.
pub broadcast proof fn lemma_holes_add(a: Seq<char>, b: Seq<char>)
    ensures
        #[trigger] holes(a + b) == holes(a) + holes(b),
{
    lemma_holes_head(a, b, 0);
}

// ---------------------------------------------------------------------------
// Counting in the texts
// ---------------------------------------------------------------------------

/// The columns and connectives.
proof fn lemma_columns()
    ensures
        holes("p.is_primary = 1"@) == 0,
        holes("p.id IN ("@) == 0,
        holes(")"@) == 0,
        holes("("@) == 0,
        holes("?"@) == 1,
        holes(","@) == 0,
        holes(" OR "@) == 0,
        holes(" AND "@) == 0,
        holes(" AND NOT "@) == 0,
        holes("(NOT "@) == 0,
        holes("NOT ("@) == 0,
        holes(" IS NULL"@) == 0,
        holes(" = ?"@) == 1,
        holes("p.camera_serial"@) == 0,
        holes("p.lens"@) == 0,
        holes(SCOPE_TEST@) == 2,
        holes(DAY_KEY@) == 0,
{
    assert(holes("p.is_primary = 1"@) == 0) by {
        reveal_strlit("p.is_primary = 1");
        reveal_with_fuel(holes_from, 45);
    }
    assert(holes("p.id IN ("@) == 0) by {
        reveal_strlit("p.id IN (");
        reveal_with_fuel(holes_from, 45);
    }
    assert(holes(")"@) == 0) by {
        reveal_strlit(")");
        reveal_with_fuel(holes_from, 45);
    }
    assert(holes("("@) == 0) by {
        reveal_strlit("(");
        reveal_with_fuel(holes_from, 45);
    }
    assert(holes("?"@) == 1) by {
        reveal_strlit("?");
        reveal_with_fuel(holes_from, 45);
    }
    assert(holes(","@) == 0) by {
        reveal_strlit(",");
        reveal_with_fuel(holes_from, 45);
    }
    assert(holes(" OR "@) == 0) by {
        reveal_strlit(" OR ");
        reveal_with_fuel(holes_from, 45);
    }
    assert(holes(" AND "@) == 0) by {
        reveal_strlit(" AND ");
        reveal_with_fuel(holes_from, 45);
    }
    assert(holes(" AND NOT "@) == 0) by {
        reveal_strlit(" AND NOT ");
        reveal_with_fuel(holes_from, 45);
    }
    assert(holes("(NOT "@) == 0) by {
        reveal_strlit("(NOT ");
        reveal_with_fuel(holes_from, 45);
    }
    assert(holes("NOT ("@) == 0) by {
        reveal_strlit("NOT (");
        reveal_with_fuel(holes_from, 45);
    }
    assert(holes(" IS NULL"@) == 0) by {
        reveal_strlit(" IS NULL");
        reveal_with_fuel(holes_from, 45);
    }
    assert(holes(" = ?"@) == 1) by {
        reveal_strlit(" = ?");
        reveal_with_fuel(holes_from, 45);
    }
    assert(holes("p.camera_serial"@) == 0) by {
        reveal_strlit("p.camera_serial");
        reveal_with_fuel(holes_from, 45);
    }
    assert(holes("p.lens"@) == 0) by {
        reveal_strlit("p.lens");
        reveal_with_fuel(holes_from, 45);
    }
    assert(holes(SCOPE_TEST@) == 2) by {
        reveal_strlit("substr(p.path, 1, length(?)) = ?");
        reveal_with_fuel(holes_from, 45);
    }
    assert(holes(DAY_KEY@) == 0) by {
        reveal_strlit("CASE WHEN p.taken_at_corrected IS NOT NULL THEN strftime('%Y-%m-%d', p.taken_at_corrected, 'unixepoch') ELSE strftime('%Y-%m-%d', p.mtime, 'unixepoch', 'localtime') END");
        reveal_with_fuel(holes_from, 45);
        let s = DAY_KEY@;
        assert(holes_from(s, 128) == 0);
        assert(holes_from(s, 88) == 0);
        assert(holes_from(s, 48) == 0);
        assert(holes_from(s, 8) == 0);
    }
}

/// The tests for the files of a pair.
proof fn lemma_pair_tests()
    ensures
        holes(HAS_RAW@) == 0,
        holes(HAS_JPG@) == 0,
{
    assert(holes(HAS_RAW@) == 0) by {
        reveal_strlit("EXISTS(SELECT 1 FROM photos a WHERE a.pair_key = p.pair_key AND a.file_kind = 'raw')");
        reveal_with_fuel(holes_from, 45);
        let s = HAS_RAW@;
        assert(holes_from(s, 44) == 0);
        assert(holes_from(s, 4) == 0);
    }
    assert(holes(HAS_JPG@) == 0) by {
        reveal_strlit("EXISTS(SELECT 1 FROM photos b WHERE b.pair_key = p.pair_key AND b.file_kind = 'jpeg')");
        reveal_with_fuel(holes_from, 45);
        let s = HAS_JPG@;
        assert(holes_from(s, 45) == 0);
        assert(holes_from(s, 5) == 0);
    }
}

/// The tests for marks.
proof fn lemma_mark_tests()
    ensures
        holes(DECISION@) == 0,
        holes(STARS@) == 0,
        holes(COLOR@) == 0,
        holes(" = 'none'"@) == 0,
        holes(" = 'keep'"@) == 0,
        holes(" = 'reject'"@) == 0,
        holes(" <> 'none'"@) == 0,
{
    assert(holes(DECISION@) == 0) by {
        reveal_strlit("COALESCE(d.decision, 'none')");
        reveal_with_fuel(holes_from, 45);
    }
    assert(holes(STARS@) == 0) by {
        reveal_strlit("COALESCE(d.stars, 0)");
        reveal_with_fuel(holes_from, 45);
    }
    assert(holes(COLOR@) == 0) by {
        reveal_strlit("COALESCE(d.color, '')");
        reveal_with_fuel(holes_from, 45);
    }
    assert(holes(" = 'none'"@) == 0) by {
        reveal_strlit(" = 'none'");
        reveal_with_fuel(holes_from, 45);
    }
    assert(holes(" = 'keep'"@) == 0) by {
        reveal_strlit(" = 'keep'");
        reveal_with_fuel(holes_from, 45);
    }
    assert(holes(" = 'reject'"@) == 0) by {
        reveal_strlit(" = 'reject'");
        reveal_with_fuel(holes_from, 45);
    }
    assert(holes(" <> 'none'"@) == 0) by {
        reveal_strlit(" <> 'none'");
        reveal_with_fuel(holes_from, 45);
    }
}

/// The tests for searches, ranges and flaws.
proof fn lemma_value_tests()
    ensures
        holes("p.path LIKE ? ESCAPE '\\'"@) == 1,
        holes("p.focal_len >= ? AND p.focal_len < ?"@) == 2,
        holes("p.iso >= ? AND p.iso < ?"@) == 2,
        holes("p.sharpness IS NOT NULL AND p.sharpness < "@) == 0,
        holes("p.overexposed IS NOT NULL AND p.overexposed >= "@) == 0,
        holes("p.underexposed IS NOT NULL AND p.underexposed >= "@) == 0,
        holes("p.eye_ratio IS NOT NULL AND p.eye_ratio < "@) == 0,
        holes(BLUR_THRESHOLD@) == 0,
        holes(OVEREXPOSED_THRESHOLD@) == 0,
        holes(UNDEREXPOSED_THRESHOLD@) == 0,
        holes(CLOSED_THRESHOLD@) == 0,
{
    assert(holes("p.path LIKE ? ESCAPE '\\'"@) == 1) by {
        reveal_strlit("p.path LIKE ? ESCAPE '\\'");
        reveal_with_fuel(holes_from, 45);
    }
    assert(holes("p.focal_len >= ? AND p.focal_len < ?"@) == 2) by {
        reveal_strlit("p.focal_len >= ? AND p.focal_len < ?");
        reveal_with_fuel(holes_from, 45);
    }
    assert(holes("p.iso >= ? AND p.iso < ?"@) == 2) by {
        reveal_strlit("p.iso >= ? AND p.iso < ?");
        reveal_with_fuel(holes_from, 45);
    }
    assert(holes("p.sharpness IS NOT NULL AND p.sharpness < "@) == 0) by {
        reveal_strlit("p.sharpness IS NOT NULL AND p.sharpness < ");
        reveal_with_fuel(holes_from, 45);
        let s = "p.sharpness IS NOT NULL AND p.sharpness < "@;
        assert(holes_from(s, 2) == 0);
    }
    assert(holes("p.overexposed IS NOT NULL AND p.overexposed >= "@) == 0) by {
        reveal_strlit("p.overexposed IS NOT NULL AND p.overexposed >= ");
        reveal_with_fuel(holes_from, 45);
        let s = "p.overexposed IS NOT NULL AND p.overexposed >= "@;
        assert(holes_from(s, 7) == 0);
    }
    assert(holes("p.underexposed IS NOT NULL AND p.underexposed >= "@) == 0) by {
        reveal_strlit("p.underexposed IS NOT NULL AND p.underexposed >= ");
        reveal_with_fuel(holes_from, 45);
        let s = "p.underexposed IS NOT NULL AND p.underexposed >= "@;
        assert(holes_from(s, 9) == 0);
    }
    assert(holes("p.eye_ratio IS NOT NULL AND p.eye_ratio < "@) == 0) by {
        reveal_strlit("p.eye_ratio IS NOT NULL AND p.eye_ratio < ");
        reveal_with_fuel(holes_from, 45);
        let s = "p.eye_ratio IS NOT NULL AND p.eye_ratio < "@;
        assert(holes_from(s, 2) == 0);
    }
    assert(holes(BLUR_THRESHOLD@) == 0) by {
        reveal_strlit("25");
        reveal_with_fuel(holes_from, 45);
    }
    assert(holes(OVEREXPOSED_THRESHOLD@) == 0) by {
        reveal_strlit("0.02");
        reveal_with_fuel(holes_from, 45);
    }
    assert(holes(UNDEREXPOSED_THRESHOLD@) == 0) by {
        reveal_strlit("0.25");
        reveal_with_fuel(holes_from, 45);
    }
    assert(holes(CLOSED_THRESHOLD@) == 0) by {
        reveal_strlit("0.21");
        reveal_with_fuel(holes_from, 45);
    }
}

/// The orders.
proof fn lemma_orders()
    ensures
        holes("ORDER BY COALESCE(p.taken_at_corrected, p.mtime) ASC, p.path"@) == 0,
        holes("ORDER BY p.path ASC"@) == 0,
        holes("ORDER BY p.path DESC"@) == 0,
        holes("ORDER BY p.file_size DESC, p.path"@) == 0,
        holes("ORDER BY COALESCE(d.stars, 0) DESC, p.path"@) == 0,
        holes("ORDER BY (p.sharpness IS NULL), p.sharpness ASC, p.path"@) == 0,
        holes("ORDER BY (p.sharpness IS NULL), p.sharpness DESC, p.path"@) == 0,
        holes("ORDER BY COALESCE(p.taken_at_corrected, p.mtime) DESC, p.path"@) == 0,
{
    assert(holes("ORDER BY COALESCE(p.taken_at_corrected, p.mtime) ASC, p.path"@) == 0) by {
        reveal_strlit("ORDER BY COALESCE(p.taken_at_corrected, p.mtime) ASC, p.path");
        reveal_with_fuel(holes_from, 45);
        let s = "ORDER BY COALESCE(p.taken_at_corrected, p.mtime) ASC, p.path"@;
        assert(holes_from(s, 20) == 0);
    }
    assert(holes("ORDER BY p.path ASC"@) == 0) by {
        reveal_strlit("ORDER BY p.path ASC");
        reveal_with_fuel(holes_from, 45);
    }
    assert(holes("ORDER BY p.path DESC"@) == 0) by {
        reveal_strlit("ORDER BY p.path DESC");
        reveal_with_fuel(holes_from, 45);
    }
    assert(holes("ORDER BY p.file_size DESC, p.path"@) == 0) by {
        reveal_strlit("ORDER BY p.file_size DESC, p.path");
        reveal_with_fuel(holes_from, 45);
    }
    assert(holes("ORDER BY COALESCE(d.stars, 0) DESC, p.path"@) == 0) by {
        reveal_strlit("ORDER BY COALESCE(d.stars, 0) DESC, p.path");
        reveal_with_fuel(holes_from, 45);
        let s = "ORDER BY COALESCE(d.stars, 0) DESC, p.path"@;
        assert(holes_from(s, 2) == 0);
    }
    assert(holes("ORDER BY (p.sharpness IS NULL), p.sharpness ASC, p.path"@) == 0) by {
        reveal_strlit("ORDER BY (p.sharpness IS NULL), p.sharpness ASC, p.path");
        reveal_with_fuel(holes_from, 45);
        let s = "ORDER BY (p.sharpness IS NULL), p.sharpness ASC, p.path"@;
        assert(holes_from(s, 15) == 0);
    }
    assert(holes("ORDER BY (p.sharpness IS NULL), p.sharpness DESC, p.path"@) == 0) by {
        reveal_strlit("ORDER BY (p.sharpness IS NULL), p.sharpness DESC, p.path");
        reveal_with_fuel(holes_from, 45);
        let s = "ORDER BY (p.sharpness IS NULL), p.sharpness DESC, p.path"@;
        assert(holes_from(s, 16) == 0);
    }
    assert(holes("ORDER BY COALESCE(p.taken_at_corrected, p.mtime) DESC, p.path"@) == 0) by {
        reveal_strlit("ORDER BY COALESCE(p.taken_at_corrected, p.mtime) DESC, p.path");
        reveal_with_fuel(holes_from, 45);
        let s = "ORDER BY COALESCE(p.taken_at_corrected, p.mtime) DESC, p.path"@;
        assert(holes_from(s, 21) == 0);
    }
}

/// The selections around a condition.
proof fn lemma_selections()
    ensures
        holes("SELECT COUNT(*) "@) == 0,
        holes("SELECT p.id "@) == 0,
        holes(" WHERE "@) == 0,
        holes(FROM_PHOTOS@) == 0,
        holes(", "@) == 0,
        holes(" "@) == 0,
        holes(" LIMIT ? OFFSET ?"@) == 2,
{
    assert(holes("SELECT COUNT(*) "@) == 0) by {
        reveal_strlit("SELECT COUNT(*) ");
        reveal_with_fuel(holes_from, 45);
    }
    assert(holes("SELECT p.id "@) == 0) by {
        reveal_strlit("SELECT p.id ");
        reveal_with_fuel(holes_from, 45);
    }
    assert(holes(" WHERE "@) == 0) by {
        reveal_strlit(" WHERE ");
        reveal_with_fuel(holes_from, 45);
    }
    assert(holes(FROM_PHOTOS@) == 0) by {
        reveal_strlit("FROM photos p LEFT JOIN decisions d ON d.pair_key = p.pair_key");
        reveal_with_fuel(holes_from, 45);
        let s = FROM_PHOTOS@;
        assert(holes_from(s, 22) == 0);
    }
    assert(holes(", "@) == 0) by {
        reveal_strlit(", ");
        reveal_with_fuel(holes_from, 45);
    }
    assert(holes(" "@) == 0) by {
        reveal_strlit(" ");
        reveal_with_fuel(holes_from, 45);
    }
    assert(holes(" LIMIT ? OFFSET ?"@) == 2) by {
        reveal_strlit(" LIMIT ? OFFSET ?");
        reveal_with_fuel(holes_from, 45);
    }
}

/// The first columns of a card.
proof fn lemma_card_head()
    ensures
        holes(CARD_HEAD@) == 0,
{
    assert(holes(CARD_HEAD@) == 0) by {
        reveal_strlit("SELECT p.id, p.pair_key, p.path, p.file_kind, (SELECT MAX(CASE WHEN q.file_kind = 'raw' THEN 1 ELSE 0 END) FROM photos q WHERE q.pair_key = p.pair_key), (SELECT MAX(CASE WHEN q.file_kind = 'jpeg' THEN 1 ELSE 0 END) FROM photos q WHERE q.pair_key = p.pair_key), ");
        reveal_with_fuel(holes_from, 45);
        let s = CARD_HEAD@;
        assert(holes_from(s, 221) == 0);
        assert(holes_from(s, 181) == 0);
        assert(holes_from(s, 141) == 0);
        assert(holes_from(s, 101) == 0);
        assert(holes_from(s, 61) == 0);
        assert(holes_from(s, 21) == 0);
    }
}

/// The other columns of a card.
proof fn lemma_card_rest()
    ensures
        holes(CARD_MID@) == 0,
        holes(CARD_TAIL@) == 0,
{
    assert(holes(CARD_MID@) == 0) by {
        reveal_strlit(", p.camera_model, p.camera_serial, p.lens, p.focal_len, p.aperture, p.shutter, p.iso, p.file_size, p.decode_path, ");
        reveal_with_fuel(holes_from, 45);
        let s = CARD_MID@;
        assert(holes_from(s, 74) == 0);
        assert(holes_from(s, 34) == 0);
    }
    assert(holes(CARD_TAIL@) == 0) by {
        reveal_strlit(", p.sharpness, p.overexposed, p.underexposed, p.faces, p.eye_ratio ");
        reveal_with_fuel(holes_from, 45);
        let s = CARD_TAIL@;
        assert(holes_from(s, 27) == 0);
    }
}

/// The time of day of a card.
proof fn lemma_time_text()
    ensures
        holes(TIME_TEXT@) == 0,
{
    assert(holes(TIME_TEXT@) == 0) by {
        reveal_strlit("CASE WHEN p.taken_at_corrected IS NOT NULL THEN strftime('%Y-%m-%d %H:%M:%S', p.taken_at_corrected, 'unixepoch') ELSE strftime('%Y-%m-%d %H:%M:%S', p.mtime, 'unixepoch', 'localtime') END");
        reveal_with_fuel(holes_from, 45);
        let s = TIME_TEXT@;
        assert(holes_from(s, 146) == 0);
        assert(holes_from(s, 106) == 0);
        assert(holes_from(s, 66) == 0);
        assert(holes_from(s, 26) == 0);
    }
}

/// The columns of an export and of bursts.
proof fn lemma_export_texts()
    ensures
        holes("SELECT p.pair_key, "@) == 0,
        holes(EXPORT_TAIL@) == 0,
        holes("SELECT MIN(p.id), p.pair_key, MIN(COALESCE(p.taken_at_corrected, p.mtime)), MIN("@) == 0,
        holes("), "@) == 0,
        holes(", MIN(p.path) "@) == 0,
        holes(" AND COALESCE(p.taken_at_corrected, p.mtime) IS NOT NULL GROUP BY p.pair_key ORDER BY 3"@) == 0,
{
    assert(holes("SELECT p.pair_key, "@) == 0) by {
        reveal_strlit("SELECT p.pair_key, ");
        reveal_with_fuel(holes_from, 45);
    }
    assert(holes(EXPORT_TAIL@) == 0) by {
        reveal_strlit(", p.camera_model, p.lens, p.focal_len, p.aperture, p.shutter, p.iso ");
        reveal_with_fuel(holes_from, 45);
        let s = EXPORT_TAIL@;
        assert(holes_from(s, 28) == 0);
    }
    assert(holes("SELECT MIN(p.id), p.pair_key, MIN(COALESCE(p.taken_at_corrected, p.mtime)), MIN("@) == 0) by {
        reveal_strlit("SELECT MIN(p.id), p.pair_key, MIN(COALESCE(p.taken_at_corrected, p.mtime)), MIN(");
        reveal_with_fuel(holes_from, 45);
        let s = "SELECT MIN(p.id), p.pair_key, MIN(COALESCE(p.taken_at_corrected, p.mtime)), MIN("@;
        assert(holes_from(s, 40) == 0);
    }
    assert(holes("), "@) == 0) by {
        reveal_strlit("), ");
        reveal_with_fuel(holes_from, 45);
    }
    assert(holes(", MIN(p.path) "@) == 0) by {
        reveal_strlit(", MIN(p.path) ");
        reveal_with_fuel(holes_from, 45);
    }
    assert(holes(" AND COALESCE(p.taken_at_corrected, p.mtime) IS NOT NULL GROUP BY p.pair_key ORDER BY 3"@) == 0) by {
        reveal_strlit(" AND COALESCE(p.taken_at_corrected, p.mtime) IS NOT NULL GROUP BY p.pair_key ORDER BY 3");
        reveal_with_fuel(holes_from, 45);
        let s = " AND COALESCE(p.taken_at_corrected, p.mtime) IS NOT NULL GROUP BY p.pair_key ORDER BY 3"@;
        assert(holes_from(s, 47) == 0);
        assert(holes_from(s, 7) == 0);
    }
}

/// The texts of the counts by scope, progress and pairs.
proof fn lemma_count_texts()
    ensures
        holes(" WHERE p.is_primary = 1"@) == 0,
        holes("SELECT COUNT(*) FROM photos p"@) == 0,
        holes("COALESCE(SUM(CASE WHEN "@) == 0,
        holes(" THEN 1 ELSE 0 END), 0)"@) == 0,
        holes("COALESCE("@) == 0,
        holes(", '__none__')"@) == 0,
        holes("SELECT "@) == 0,
        holes(" IN ('keep', 'reject') OR "@) == 0,
        holes(" > 0"@) == 0,
        holes("NOT "@) == 0,
        holes(" FROM photos p"@) == 0,
{
    assert(holes(" WHERE p.is_primary = 1"@) == 0) by {
        reveal_strlit(" WHERE p.is_primary = 1");
        reveal_with_fuel(holes_from, 45);
    }
    assert(holes("SELECT COUNT(*) FROM photos p"@) == 0) by {
        reveal_strlit("SELECT COUNT(*) FROM photos p");
        reveal_with_fuel(holes_from, 45);
    }
    assert(holes("COALESCE(SUM(CASE WHEN "@) == 0) by {
        reveal_strlit("COALESCE(SUM(CASE WHEN ");
        reveal_with_fuel(holes_from, 45);
    }
    assert(holes(" THEN 1 ELSE 0 END), 0)"@) == 0) by {
        reveal_strlit(" THEN 1 ELSE 0 END), 0)");
        reveal_with_fuel(holes_from, 45);
    }
    assert(holes("COALESCE("@) == 0) by {
        reveal_strlit("COALESCE(");
        reveal_with_fuel(holes_from, 45);
    }
    assert(holes(", '__none__')"@) == 0) by {
        reveal_strlit(", '__none__')");
        reveal_with_fuel(holes_from, 45);
    }
    assert(holes("SELECT "@) == 0) by {
        reveal_strlit("SELECT ");
        reveal_with_fuel(holes_from, 45);
    }
    assert(holes(" IN ('keep', 'reject') OR "@) == 0) by {
        reveal_strlit(" IN ('keep', 'reject') OR ");
        reveal_with_fuel(holes_from, 45);
    }
    assert(holes(" > 0"@) == 0) by {
        reveal_strlit(" > 0");
        reveal_with_fuel(holes_from, 45);
    }
    assert(holes("NOT "@) == 0) by {
        reveal_strlit("NOT ");
        reveal_with_fuel(holes_from, 45);
    }
    assert(holes(" FROM photos p"@) == 0) by {
        reveal_strlit(" FROM photos p");
        reveal_with_fuel(holes_from, 45);
    }
}

/// The texts of the counts by camera.
proof fn lemma_camera_texts()
    ensures
        holes(" AS serial, COALESCE(MAX(p.camera_model), '未知机身') AS model, COUNT(*) AS n FROM photos p"@) == 0,
        holes(" GROUP BY serial ORDER BY n DESC, model"@) == 0,
{
    assert(holes(" AS serial, COALESCE(MAX(p.camera_model), '未知机身') AS model, COUNT(*) AS n FROM photos p"@) == 0) by {
        reveal_strlit(" AS serial, COALESCE(MAX(p.camera_model), '未知机身') AS model, COUNT(*) AS n FROM photos p");
        reveal_with_fuel(holes_from, 45);
        let s = " AS serial, COALESCE(MAX(p.camera_model), '未知机身') AS model, COUNT(*) AS n FROM photos p"@;
        assert(holes_from(s, 47) == 0);
        assert(holes_from(s, 7) == 0);
    }
    assert(holes(" GROUP BY serial ORDER BY n DESC, model"@) == 0) by {
        reveal_strlit(" GROUP BY serial ORDER BY n DESC, model");
        reveal_with_fuel(holes_from, 45);
    }
}

/// The texts of the counts by day.
proof fn lemma_day_texts()
    ensures
        holes("SELECT COUNT(*) FROM (SELECT DISTINCT ("@) == 0,
        holes(") AS d FROM photos p WHERE p.is_primary = 1 AND ("@) == 0,
        holes(") IS NOT NULL"@) == 0,
        holes("SELECT COUNT(*) FROM photos p WHERE p.is_primary = 1 AND ("@) == 0,
        holes(") IS NULL"@) == 0,
        holes("SELECT ("@) == 0,
        holes(") AS d, COUNT(*) AS n FROM photos p WHERE p.is_primary = 1 AND ("@) == 0,
        holes(" GROUP BY d ORDER BY d DESC LIMIT "@) == 0,
{
    assert(holes("SELECT COUNT(*) FROM (SELECT DISTINCT ("@) == 0) by {
        reveal_strlit("SELECT COUNT(*) FROM (SELECT DISTINCT (");
        reveal_with_fuel(holes_from, 45);
    }
    assert(holes(") AS d FROM photos p WHERE p.is_primary = 1 AND ("@) == 0) by {
        reveal_strlit(") AS d FROM photos p WHERE p.is_primary = 1 AND (");
        reveal_with_fuel(holes_from, 45);
        let s = ") AS d FROM photos p WHERE p.is_primary = 1 AND ("@;
        assert(holes_from(s, 9) == 0);
    }
    assert(holes(") IS NOT NULL"@) == 0) by {
        reveal_strlit(") IS NOT NULL");
        reveal_with_fuel(holes_from, 45);
    }
    assert(holes("SELECT COUNT(*) FROM photos p WHERE p.is_primary = 1 AND ("@) == 0) by {
        reveal_strlit("SELECT COUNT(*) FROM photos p WHERE p.is_primary = 1 AND (");
        reveal_with_fuel(holes_from, 45);
        let s = "SELECT COUNT(*) FROM photos p WHERE p.is_primary = 1 AND ("@;
        assert(holes_from(s, 18) == 0);
    }
    assert(holes(") IS NULL"@) == 0) by {
        reveal_strlit(") IS NULL");
        reveal_with_fuel(holes_from, 45);
    }
    assert(holes("SELECT ("@) == 0) by {
        reveal_strlit("SELECT (");
        reveal_with_fuel(holes_from, 45);
    }
    assert(holes(") AS d, COUNT(*) AS n FROM photos p WHERE p.is_primary = 1 AND ("@) == 0) by {
        reveal_strlit(") AS d, COUNT(*) AS n FROM photos p WHERE p.is_primary = 1 AND (");
        reveal_with_fuel(holes_from, 45);
        let s = ") AS d, COUNT(*) AS n FROM photos p WHERE p.is_primary = 1 AND ("@;
        assert(holes_from(s, 24) == 0);
    }
    assert(holes(" GROUP BY d ORDER BY d DESC LIMIT "@) == 0) by {
        reveal_strlit(" GROUP BY d ORDER BY d DESC LIMIT ");
        reveal_with_fuel(holes_from, 45);
    }
}

/// The texts of the counts by mark.
proof fn lemma_mark_texts()
    ensures
        holes(" AS s, COUNT(*) "@) == 0,
        holes(" GROUP BY s"@) == 0,
        holes(" AS c, COUNT(*) "@) == 0,
        holes(" GROUP BY c"@) == 0,
        holes(" AS l, COUNT(*) "@) == 0,
        holes(" GROUP BY l ORDER BY COUNT(*) DESC, l"@) == 0,
{
    assert(holes(" AS s, COUNT(*) "@) == 0) by {
        reveal_strlit(" AS s, COUNT(*) ");
        reveal_with_fuel(holes_from, 45);
    }
    assert(holes(" GROUP BY s"@) == 0) by {
        reveal_strlit(" GROUP BY s");
        reveal_with_fuel(holes_from, 45);
    }
    assert(holes(" AS c, COUNT(*) "@) == 0) by {
        reveal_strlit(" AS c, COUNT(*) ");
        reveal_with_fuel(holes_from, 45);
    }
    assert(holes(" GROUP BY c"@) == 0) by {
        reveal_strlit(" GROUP BY c");
        reveal_with_fuel(holes_from, 45);
    }
    assert(holes(" AS l, COUNT(*) "@) == 0) by {
        reveal_strlit(" AS l, COUNT(*) ");
        reveal_with_fuel(holes_from, 45);
    }
    assert(holes(" GROUP BY l ORDER BY COUNT(*) DESC, l"@) == 0) by {
        reveal_strlit(" GROUP BY l ORDER BY COUNT(*) DESC, l");
        reveal_with_fuel(holes_from, 45);
    }
}

/// The texts of the counts by range.
proof fn lemma_range_texts()
    ensures
        holes(" >= "@) == 0,
        holes(" < "@) == 0,
        holes("0"@) == 0,
        holes("24"@) == 0,
        holes("70"@) == 0,
        holes("200"@) == 0,
        holes("400"@) == 0,
        holes("1600"@) == 0,
        holes("6400"@) == 0,
        holes("p.focal_len"@) == 0,
        holes("p.iso"@) == 0,
{
    assert(holes(" >= "@) == 0) by {
        reveal_strlit(" >= ");
        reveal_with_fuel(holes_from, 45);
    }
    assert(holes(" < "@) == 0) by {
        reveal_strlit(" < ");
        reveal_with_fuel(holes_from, 45);
    }
    assert(holes("0"@) == 0) by {
        reveal_strlit("0");
        reveal_with_fuel(holes_from, 45);
    }
    assert(holes("24"@) == 0) by {
        reveal_strlit("24");
        reveal_with_fuel(holes_from, 45);
    }
    assert(holes("70"@) == 0) by {
        reveal_strlit("70");
        reveal_with_fuel(holes_from, 45);
    }
    assert(holes("200"@) == 0) by {
        reveal_strlit("200");
        reveal_with_fuel(holes_from, 45);
    }
    assert(holes("400"@) == 0) by {
        reveal_strlit("400");
        reveal_with_fuel(holes_from, 45);
    }
    assert(holes("1600"@) == 0) by {
        reveal_strlit("1600");
        reveal_with_fuel(holes_from, 45);
    }
    assert(holes("6400"@) == 0) by {
        reveal_strlit("6400");
        reveal_with_fuel(holes_from, 45);
    }
    assert(holes("p.focal_len"@) == 0) by {
        reveal_strlit("p.focal_len");
        reveal_with_fuel(holes_from, 45);
    }
    assert(holes("p.iso"@) == 0) by {
        reveal_strlit("p.iso");
        reveal_with_fuel(holes_from, 45);
    }
}

/// The largest number.
proof fn lemma_largest_text()
    ensures
        holes(LARGEST_REAL@) == 0,
{
    assert(holes(LARGEST_REAL@) == 0) by {
        reveal_strlit("179769313486231570000000000000000000000000000000000000000000000000000000000000000000000000000000000000000000000000000000000000000000000000000000000000000000000000000000000000000000000000000000000000000000000000000000000000000000000000000000000000000000000000000000000000000000000000000000000000000000000000000");
        reveal_with_fuel(holes_from, 45);
        let s = LARGEST_REAL@;
        assert(holes_from(s, 269) == 0);
        assert(holes_from(s, 229) == 0);
        assert(holes_from(s, 189) == 0);
        assert(holes_from(s, 149) == 0);
        assert(holes_from(s, 109) == 0);
        assert(holes_from(s, 69) == 0);
        assert(holes_from(s, 29) == 0);
    }
}

// ---------------------------------------------------------------------------
// Lists of texts
// ---------------------------------------------------------------------------

/// The number of placeholders in some texts together.
pub open spec fn holes_in_all(parts: Seq<Seq<char>>) -> nat
    decreases parts.len(),
{
    if parts.len() == 0 {
        0
    } else {
        holes_in_all(parts.drop_last()) + holes(parts.last())
    }
}

proof fn lemma_holes_joined(parts: Seq<Seq<char>>, sep: Seq<char>)
    requires
        holes(sep) == 0,
    ensures
        holes(joined(parts, sep)) == holes_in_all(parts),
    decreases parts.len(),
{
    if parts.len() == 0 {
        assert(holes(Seq::<char>::empty()) == 0);
    } else if parts.len() == 1 {
        assert(parts.drop_last().len() == 0);
        assert(holes_in_all(parts.drop_last()) == 0);
        assert(parts[0] == parts.last());
    } else {
        let front = joined(parts.drop_last(), sep);
        lemma_holes_joined(parts.drop_last(), sep);
        lemma_holes_add(front + sep, parts.last());
        lemma_holes_add(front, sep);
    }
}

proof fn lemma_holes_repeated(n: nat, part: Seq<char>)
    ensures
        holes_in_all(Seq::new(n, |i: int| part)) == n * holes(part),
    decreases n,
{
    let all = Seq::new(n, |i: int| part);
    if n > 0 {
        let fewer = Seq::new((n - 1) as nat, |i: int| part);
        assert(all.drop_last() =~= fewer);
        lemma_holes_repeated((n - 1) as nat, part);
        assert(n * holes(part) == (n - 1) * holes(part) + holes(part)) by (nonlinear_arith)
            requires
                n > 0,
        ;
    } else {
        assert(0 * holes(part) == 0) by (nonlinear_arith);
    }
}

proof fn lemma_holes_holders(n: nat)
    ensures
        holes(holders(n)) == n,
{
    lemma_columns();
    lemma_holes_joined(Seq::new(n, |i: int| "?"@), ","@);
    lemma_holes_repeated(n, "?"@);
    assert(n * 1 == n) by (nonlinear_arith);
}

proof fn lemma_holes_scope(n: nat)
    ensures
        holes(scope_text(n)) == 2 * n,
        holes(scope_suffix(n)) == 2 * n,
{
    lemma_columns();
    assert(holes(Seq::<char>::empty()) == 0);
    if n > 0 {
        let tests = joined(Seq::new(n, |i: int| SCOPE_TEST@), " OR "@);
        lemma_holes_joined(Seq::new(n, |i: int| SCOPE_TEST@), " OR "@);
        lemma_holes_repeated(n, SCOPE_TEST@);
        assert(n * 2 == 2 * n) by (nonlinear_arith);
        lemma_holes_add("("@ + tests, ")"@);
        lemma_holes_add("("@, tests);
        lemma_holes_add(" AND "@, scope_text(n));
    }
}

proof fn lemma_doubled_len(p: Seq<Seq<char>>)
    ensures
        doubled(p).len() == 2 * p.len(),
    decreases p.len(),
{
    if p.len() > 0 {
        lemma_doubled_len(p.drop_last());
    }
}

// ---------------------------------------------------------------------------
// Conditions
// ---------------------------------------------------------------------------

/// There are as many placeholders in the parts of a condition as there are values.
pub open spec fn in_step(c: CondModel) -> bool {
    holes_in_all(c.parts) == c.args.len()
}

proof fn lemma_and_in_step(c: CondModel, part: Seq<char>, args: Seq<ArgModel>)
    requires
        in_step(c),
        holes(part) == args.len(),
    ensures
        in_step(c.and(part, args)),
{
    assert(c.parts.push(part).drop_last() =~= c.parts);
}

proof fn lemma_ids_in_step(c: CondModel, ids: Option<Seq<i64>>)
    requires
        in_step(c),
    ensures
        in_step(by_ids(c, ids)),
{
    if let Some(v) = ids {
        if v.len() > 0 {
            let list = holders(v.len());
            lemma_columns();
            lemma_holes_holders(v.len());
            lemma_holes_add("p.id IN ("@ + list, ")"@);
            lemma_holes_add("p.id IN ("@, list);
            lemma_and_in_step(
                c,
                "p.id IN ("@ + list + ")"@,
                v.map_values(|id: i64| ArgModel::Integer(id)),
            );
        }
    }
}

proof fn lemma_scope_in_step(c: CondModel, roots: Option<Seq<Seq<char>>>, sep: char)
    requires
        in_step(c),
    ensures
        in_step(by_scope(c, roots, sep)),
{
    let p = prefixes_in(roots, sep);
    lemma_holes_scope(p.len());
    lemma_doubled_len(p);
    lemma_and_in_step(c, scope_text(p.len()), doubled(p));
}

proof fn lemma_pair_state_in_step(c: CondModel, state: Option<Seq<char>>)
    requires
        in_step(c),
    ensures
        in_step(by_pair_state(c, state)),
{
    lemma_columns();
    lemma_pair_tests();
    let none = Seq::<ArgModel>::empty();
    assert forall|head: Seq<char>, mid: Seq<char>|
        holes(head) == 0 && holes(mid) == 0 implies in_step(
        #[trigger] c.and(head + HAS_RAW@ + mid + HAS_JPG@ + ")"@, none),
    ) by {
        lemma_holes_add(head + HAS_RAW@ + mid + HAS_JPG@, ")"@);
        lemma_holes_add(head + HAS_RAW@ + mid, HAS_JPG@);
        lemma_holes_add(head + HAS_RAW@, mid);
        lemma_holes_add(head, HAS_RAW@);
        lemma_and_in_step(c, head + HAS_RAW@ + mid + HAS_JPG@ + ")"@, none);
    }
    assert(in_step(c.and("("@ + HAS_RAW@ + " AND "@ + HAS_JPG@ + ")"@, none)));
    assert(in_step(c.and("("@ + HAS_RAW@ + " AND NOT "@ + HAS_JPG@ + ")"@, none)));
    assert(in_step(c.and("(NOT "@ + HAS_RAW@ + " AND "@ + HAS_JPG@ + ")"@, none)));
    assert(in_step(c.and("NOT ("@ + HAS_RAW@ + " AND "@ + HAS_JPG@ + ")"@, none)));
}

proof fn lemma_value_in_step(c: CondModel, column: Seq<char>, value: Option<Seq<char>>)
    requires
        in_step(c),
        holes(column) == 0,
    ensures
        in_step(by_value(c, column, value)),
{
    lemma_columns();
    lemma_holes_add(column, " IS NULL"@);
    lemma_holes_add(column, " = ?"@);
    lemma_and_in_step(c, column + " IS NULL"@, Seq::empty());
    if let Some(v) = value {
        lemma_and_in_step(c, column + " = ?"@, seq![ArgModel::Text(v)]);
    }
}

proof fn lemma_marks_in_step(
    c: CondModel,
    decision: Option<Seq<char>>,
    stars: Option<i64>,
    color: Option<Seq<char>>,
)
    requires
        in_step(c),
    ensures
        in_step(by_decision(c, decision)),
        in_step(by_stars(c, stars)),
        in_step(by_color(c, color)),
{
    lemma_columns();
    lemma_mark_tests();
    lemma_holes_add(DECISION@, " = 'none'"@);
    lemma_holes_add(DECISION@, " = 'keep'"@);
    lemma_holes_add(DECISION@, " = 'reject'"@);
    lemma_holes_add(DECISION@, " <> 'none'"@);
    lemma_and_in_step(c, DECISION@ + " = 'none'"@, Seq::empty());
    lemma_and_in_step(c, DECISION@ + " = 'keep'"@, Seq::empty());
    lemma_and_in_step(c, DECISION@ + " = 'reject'"@, Seq::empty());
    lemma_and_in_step(c, DECISION@ + " <> 'none'"@, Seq::empty());
    lemma_holes_add(STARS@, " = ?"@);
    lemma_holes_add(COLOR@, " = ?"@);
    if let Some(n) = stars {
        lemma_and_in_step(
            c,
            STARS@ + " = ?"@,
            seq![ArgModel::Integer(crate::filter::stars_in_range(n))],
        );
    }
    if let Some(v) = crate::filter::color_of(color) {
        lemma_and_in_step(c, COLOR@ + " = ?"@, seq![ArgModel::Text(v)]);
    }
}

proof fn lemma_rest_in_step(
    c: CondModel,
    search: Option<Seq<char>>,
    focal: Option<Seq<char>>,
    iso: Option<Seq<char>>,
    quality: Option<Seq<char>>,
)
    requires
        in_step(c),
    ensures
        in_step(by_search(c, search)),
        in_step(by_focal(c, focal)),
        in_step(by_iso(c, iso)),
        in_step(by_quality(c, quality)),
{
    lemma_value_tests();
    if let Some(q) = search {
        lemma_and_in_step(
            c,
            "p.path LIKE ? ESCAPE '\\'"@,
            seq![
                ArgModel::Text(
                    crate::filter::search_pattern(crate::text::trimmed(q)),
                ),
            ],
        );
    }
    if let Some(k) = focal {
        if let Some((lo, hi)) = crate::filter::focal_bounds(k) {
            lemma_and_in_step(
                c,
                "p.focal_len >= ? AND p.focal_len < ?"@,
                seq![ArgModel::Real(lo), crate::filter::upper_arg(hi)],
            );
        }
    }
    if let Some(k) = iso {
        if let Some((lo, hi)) = crate::filter::iso_bounds(k) {
            lemma_and_in_step(
                c,
                "p.iso >= ? AND p.iso < ?"@,
                seq![ArgModel::Integer(lo), ArgModel::Integer(hi)],
            );
        }
    }
    lemma_holes_add("p.sharpness IS NOT NULL AND p.sharpness < "@, BLUR_THRESHOLD@);
    lemma_holes_add("p.overexposed IS NOT NULL AND p.overexposed >= "@, OVEREXPOSED_THRESHOLD@);
    lemma_holes_add("p.underexposed IS NOT NULL AND p.underexposed >= "@, UNDEREXPOSED_THRESHOLD@);
    lemma_holes_add("p.eye_ratio IS NOT NULL AND p.eye_ratio < "@, CLOSED_THRESHOLD@);
    lemma_and_in_step(
        c,
        "p.sharpness IS NOT NULL AND p.sharpness < "@ + BLUR_THRESHOLD@,
        Seq::empty(),
    );
    lemma_and_in_step(
        c,
        "p.overexposed IS NOT NULL AND p.overexposed >= "@ + OVEREXPOSED_THRESHOLD@,
        Seq::empty(),
    );
    lemma_and_in_step(
        c,
        "p.underexposed IS NOT NULL AND p.underexposed >= "@ + UNDEREXPOSED_THRESHOLD@,
        Seq::empty(),
    );
    lemma_and_in_step(
        c,
        "p.eye_ratio IS NOT NULL AND p.eye_ratio < "@ + CLOSED_THRESHOLD@,
        Seq::empty(),
    );
}

proof fn lemma_conditions_in_step(f: FilterModel, sep: char)
    ensures
        in_step(conditions(f, sep)),
{
    lemma_columns();
    let c0 = CondModel { parts: seq!["p.is_primary = 1"@], args: Seq::empty() };
    assert(in_step(c0)) by {
        assert(c0.parts.drop_last().len() == 0);
        assert(holes_in_all(c0.parts.drop_last()) == 0);
    }
    let c1 = by_ids(c0, f.ids);
    lemma_ids_in_step(c0, f.ids);
    let c2 = by_scope(c1, f.roots, sep);
    lemma_scope_in_step(c1, f.roots, sep);
    let c3 = by_pair_state(c2, f.pair_state);
    lemma_pair_state_in_step(c2, f.pair_state);
    let c4 = by_value(c3, "p.camera_serial"@, f.camera_serial);
    lemma_value_in_step(c3, "p.camera_serial"@, f.camera_serial);
    lemma_holes_add("("@ + DAY_KEY@, ")"@);
    lemma_holes_add("("@, DAY_KEY@);
    let c5 = by_value(c4, day_column(), f.day);
    lemma_value_in_step(c4, day_column(), f.day);
    let c6 = by_search(c5, f.search);
    lemma_rest_in_step(c5, f.search, None, None, None);
    let c7 = by_decision(c6, f.decision);
    lemma_marks_in_step(c6, f.decision, None, None);
    let c8 = by_stars(c7, f.stars);
    lemma_marks_in_step(c7, None, f.stars, None);
    let c9 = by_color(c8, f.color);
    lemma_marks_in_step(c8, None, None, f.color);
    let c10 = by_value(c9, "p.lens"@, f.lens);
    lemma_value_in_step(c9, "p.lens"@, f.lens);
    let c11 = by_focal(c10, f.focal);
    lemma_rest_in_step(c10, None, f.focal, None, None);
    let c12 = by_iso(c11, f.iso);
    lemma_rest_in_step(c11, None, None, f.iso, None);
    lemma_rest_in_step(c12, None, None, None, f.quality);
}

/// The condition for a filter has as many placeholders as values, whatever is asked
/// for and in whatever combination.
pub proof fn law_conditions_are_in_step(f: FilterModel, sep: char)
    ensures
        holes(where_text(f, sep)) == conditions(f, sep).args.len(),
{
    lemma_columns();
    lemma_conditions_in_step(f, sep);
    lemma_holes_joined(conditions(f, sep).parts, " AND "@);
}

/// So have the queries around it. A page has two more, for its size and for where it
/// starts.
pub proof fn law_queries_are_in_step(f: FilterModel, sep: char)
    ensures
        ({
            let w = where_text(f, sep);
            let order = order_text(sort_key(f.sort));
            let n = conditions(f, sep).args.len();
            &&& holes(count_text(w)) == n
            &&& holes(page_text(w, order)) == n + 2
            &&& holes(ids_text(w, order)) == n
            &&& holes(export_text(w, order)) == n
            &&& holes(bursts_text(w)) == n
        }),
{
    law_conditions_are_in_step(f, sep);
    lemma_selections();
    lemma_card_head();
    lemma_card_rest();
    lemma_time_text();
    lemma_export_texts();
    lemma_orders();
    lemma_mark_tests();
    lemma_columns();
    assert(holes(order_text(sort_key(f.sort))) == 0);
    broadcast use lemma_holes_add;
}

// ---------------------------------------------------------------------------
// Counts
// ---------------------------------------------------------------------------

proof fn lemma_holes_dec(n: nat)
    ensures
        holes(dec(n)) == 0,
    decreases n,
{
    let last = seq![digit((n % 10) as int)];
    reveal_with_fuel(holes_from, 2);
    assert(holes(last) == 0);
    if n < 10 {
        assert(dec(n) =~= last);
    } else {
        lemma_holes_dec(n / 10);
        lemma_holes_add(dec(n / 10), last);
        assert(dec(n) =~= dec(n / 10) + last);
    }
}

proof fn lemma_holes_counted(condition: Seq<char>)
    ensures
        holes(counted(condition)) == holes(condition),
        holes(or_none(condition)) == holes(condition),
{
    lemma_count_texts();
    broadcast use lemma_holes_add;
}

proof fn lemma_counts_in_step(scope: Seq<char>)
    ensures
        holes(primary_in(scope)) == holes(scope),
        holes(total_text(scope)) == holes(scope),
        holes(progress_text(scope)) == holes(scope),
        holes(pair_states_text(scope)) == holes(scope),
        holes(cameras_text(scope)) == holes(scope),
{
    lemma_columns();
    lemma_pair_tests();
    lemma_mark_tests();
    lemma_selections();
    lemma_count_texts();
    lemma_camera_texts();
    lemma_holes_counted(DECISION@ + " IN ('keep', 'reject') OR "@ + STARS@ + " > 0"@);
    lemma_holes_counted(DECISION@ + " = 'keep'"@);
    lemma_holes_counted(HAS_RAW@ + " AND "@ + HAS_JPG@);
    lemma_holes_counted(HAS_RAW@ + " AND NOT "@ + HAS_JPG@);
    lemma_holes_counted("NOT "@ + HAS_RAW@ + " AND "@ + HAS_JPG@);
    lemma_holes_counted("p.camera_serial"@);
    broadcast use lemma_holes_add;
}

proof fn lemma_days_in_step(scope: Seq<char>)
    ensures
        holes(distinct_days_text(scope)) == holes(scope),
        holes(undated_text(scope)) == holes(scope),
        holes(days_text(scope)) == holes(scope),
{
    lemma_columns();
    lemma_day_texts();
    lemma_holes_dec(DAY_FACET_LIMIT as nat);
    broadcast use lemma_holes_add;
}

proof fn lemma_mark_counts_in_step(scope: Seq<char>)
    ensures
        holes(decisions_text(scope)) == holes(scope),
        holes(stars_text(scope)) == holes(scope),
        holes(colors_text(scope)) == holes(scope),
        holes(lenses_text(scope)) == holes(scope),
{
    lemma_counts_in_step(scope);
    lemma_count_texts();
    lemma_mark_tests();
    lemma_selections();
    lemma_day_texts();
    lemma_mark_texts();
    lemma_columns();
    lemma_holes_counted(DECISION@ + " = 'none'"@);
    lemma_holes_counted(DECISION@ + " = 'keep'"@);
    lemma_holes_counted(DECISION@ + " = 'reject'"@);
    lemma_holes_counted("p.lens"@);
    broadcast use lemma_holes_add;
}

proof fn lemma_quality_in_step(scope: Seq<char>)
    ensures
        holes(quality_text(scope)) == holes(scope),
{
    lemma_counts_in_step(scope);
    lemma_count_texts();
    lemma_selections();
    lemma_value_tests();
    lemma_holes_counted("p.sharpness IS NOT NULL AND p.sharpness < "@ + BLUR_THRESHOLD@);
    lemma_holes_counted(
        "p.overexposed IS NOT NULL AND p.overexposed >= "@ + OVEREXPOSED_THRESHOLD@,
    );
    lemma_holes_counted(
        "p.underexposed IS NOT NULL AND p.underexposed >= "@ + UNDEREXPOSED_THRESHOLD@,
    );
    lemma_holes_counted("p.eye_ratio IS NOT NULL AND p.eye_ratio < "@ + CLOSED_THRESHOLD@);
    broadcast use lemma_holes_add;
}

proof fn lemma_range_without_holes(column: Seq<char>, lo: Seq<char>, hi: Seq<char>)
    requires
        holes(column) == 0,
        holes(lo) == 0,
        holes(hi) == 0,
    ensures
        holes(range_text(column, lo, hi)) == 0,
{
    lemma_columns();
    lemma_range_texts();
    lemma_holes_counted(between_text(column, lo, hi));
    broadcast use lemma_holes_add;
}

proof fn lemma_ranges_in_step(
    column: Seq<char>,
    a: Seq<char>,
    b: Seq<char>,
    c: Seq<char>,
    scope: Seq<char>,
)
    requires
        holes(column) == 0,
        holes(a) == 0,
        holes(b) == 0,
        holes(c) == 0,
    ensures
        holes(ranges_text(column, a, b, c, scope)) == holes(scope),
{
    lemma_counts_in_step(scope);
    lemma_selections();
    lemma_count_texts();
    lemma_mark_texts();
    lemma_range_texts();
    lemma_largest_text();
    lemma_range_without_holes(column, "0"@, a);
    lemma_range_without_holes(column, a, b);
    lemma_range_without_holes(column, b, c);
    lemma_range_without_holes(column, c, LARGEST_REAL@);
    broadcast use lemma_holes_add;
}

/// Every query for the counts has as many placeholders as the values that they all
/// share, however many directories they are limited to.
pub proof fn law_counts_are_in_step(roots: Option<Seq<Seq<char>>>, sep: char)
    ensures
        ({
            let p = prefixes_in(roots, sep);
            let scope = scope_suffix(p.len());
            let n = doubled(p).len();
            &&& holes(total_text(scope)) == n
            &&& holes(progress_text(scope)) == n
            &&& holes(pair_states_text(scope)) == n
            &&& holes(cameras_text(scope)) == n
            &&& holes(distinct_days_text(scope)) == n
            &&& holes(undated_text(scope)) == n
            &&& holes(days_text(scope)) == n
            &&& holes(decisions_text(scope)) == n
            &&& holes(stars_text(scope)) == n
            &&& holes(colors_text(scope)) == n
            &&& holes(quality_text(scope)) == n
            &&& holes(lenses_text(scope)) == n
            &&& holes(ranges_text("p.focal_len"@, "24"@, "70"@, "200"@, scope)) == n
            &&& holes(ranges_text("p.iso"@, "400"@, "1600"@, "6400"@, scope)) == n
        }),
{
    let p = prefixes_in(roots, sep);
    let scope = scope_suffix(p.len());
    lemma_holes_scope(p.len());
    lemma_doubled_len(p);
    lemma_counts_in_step(scope);
    lemma_days_in_step(scope);
    lemma_mark_counts_in_step(scope);
    lemma_quality_in_step(scope);
    lemma_range_texts();
    lemma_ranges_in_step("p.focal_len"@, "24"@, "70"@, "200"@, scope);
    lemma_ranges_in_step("p.iso"@, "400"@, "1600"@, "6400"@, scope);
}

} // verus!
