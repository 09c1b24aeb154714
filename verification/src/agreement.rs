//! The counts beside the filters agree with what the filters show, and the pages of
//! the grid make up the whole.
//!
//! A count and a filter are different queries. That they look at the same photos by
//! the same conditions is proved here, over the texts of the queries and their values.
use vstd::prelude::*;

use crate::facets::{
    between_text,
    cameras_text,
    camera_facets,
    colors_text,
    counted,
    days_text,
    decisions_text,
    facets_view,
    is_facets_of,
    lenses_text,
    named_count,
    named_facets,
    or_none,
    pair_states_text,
    primary_in,
    progress_text,
    quality_text,
    ranges_text,
    star_count,
    star_facets,
    stars_text,
    total_text,
    undated_text,
    CameraCount,
    FacetModel,
    FacetRows,
    LibraryFacets,
    NamedCount,
    StarCount,
    DAY_FACET_LIMIT,
    LARGEST_REAL,
};
use crate::filter::{
    by_scope,
    color_of,
    conditions,
    count_text,
    day_column,
    doubled,
    ids_text,
    is_color,
    lemma_range_names_differ,
    order_text,
    page_text,
    prefixes_in,
    scope_suffix,
    scope_text,
    sort_key,
    where_text,
    ArgModel,
    CondModel,
    search_pattern,
    FilterModel,
    BLUR_THRESHOLD,
    CLOSED_THRESHOLD,
    COLOR,
    DECISION,
    FROM_PHOTOS,
    HAS_JPG,
    HAS_RAW,
    NONE_KEY,
    OVEREXPOSED_THRESHOLD,
    STARS,
    UNDEREXPOSED_THRESHOLD,
};
use crate::pairing::trim_seps;
use crate::text::{ascii_lower, dec, is_space, joined, lower, trim_back, trim_front, trimmed};

verus! {

// ---------------------------------------------------------------------------
// The same photos
// ---------------------------------------------------------------------------

/// The filter that asks for photos in some directories, and for nothing else.
pub open spec fn only_in(roots: Option<Seq<Seq<char>>>) -> FilterModel {
    FilterModel {
        pair_state: None,
        camera_serial: None,
        day: None,
        search: None,
        decision: None,
        stars: None,
        color: None,
        sort: None,
        roots,
        ids: None,
        quality: None,
        lens: None,
        focal: None,
        iso: None,
    }
}

/// The condition for photos in some directories.
pub open spec fn in_scope(roots: Option<Seq<Seq<char>>>, sep: char) -> CondModel {
    by_scope(CondModel { parts: seq!["p.is_primary = 1"@], args: Seq::empty() }, roots, sep)
}

/// How the counts are limited to some directories.
pub open spec fn scope_for(roots: Option<Seq<Seq<char>>>, sep: char) -> Seq<char> {
    scope_suffix(prefixes_in(roots, sep).len())
}

proof fn lemma_joined_and(c: CondModel, part: Seq<char>, args: Seq<ArgModel>)
    requires
        c.parts.len() > 0,
    ensures
        joined(c.and(part, args).parts, " AND "@) == joined(c.parts, " AND "@) + " AND "@ + part,
{
    assert(c.parts.push(part).drop_last() =~= c.parts);
}

proof fn lemma_scope_only(roots: Option<Seq<Seq<char>>>, sep: char)
    ensures
        conditions(only_in(roots), sep) == in_scope(roots, sep),
        where_text(only_in(roots), sep) == "p.is_primary = 1"@ + scope_for(roots, sep),
        in_scope(roots, sep).args == doubled(prefixes_in(roots, sep)),
        in_scope(roots, sep).parts.len() > 0,
{
    let p = prefixes_in(roots, sep);
    let c = CondModel { parts: seq!["p.is_primary = 1"@], args: Seq::<ArgModel>::empty() };
    assert(joined(c.parts, " AND "@) == "p.is_primary = 1"@);
    if p.len() == 0 {
        assert("p.is_primary = 1"@ + scope_for(roots, sep) =~= "p.is_primary = 1"@);
        assert(doubled(p) =~= Seq::<ArgModel>::empty());
    } else {
        lemma_joined_and(c, scope_text(p.len()), doubled(p));
        assert("p.is_primary = 1"@ + " AND "@ + scope_text(p.len()) =~= "p.is_primary = 1"@
            + scope_for(roots, sep));
        assert(c.args + doubled(p) =~= doubled(p));
    }
}

/// The counts look at the photos that the grid shows for the same directories: the
/// condition is the same, and so are its values. So the count of all photos is that
/// of the grid.
pub proof fn law_counts_look_at_what_the_grid_shows(roots: Option<Seq<Seq<char>>>, sep: char)
    ensures
        primary_in(scope_for(roots, sep)) == " WHERE "@ + where_text(only_in(roots), sep),
        doubled(prefixes_in(roots, sep)) == conditions(only_in(roots), sep).args,
        total_text(scope_for(roots, sep)) == "SELECT COUNT(*) FROM photos p"@ + (" WHERE "@
            + where_text(only_in(roots), sep)),
        count_text(where_text(only_in(roots), sep)) == "SELECT COUNT(*) "@ + FROM_PHOTOS@ + (
        " WHERE "@ + where_text(only_in(roots), sep)),
{
    lemma_scope_only(roots, sep);
    reveal_strlit(" WHERE p.is_primary = 1");
    reveal_strlit(" WHERE ");
    reveal_strlit("p.is_primary = 1");
    let w = where_text(only_in(roots), sep);
    assert(" WHERE p.is_primary = 1"@ =~= " WHERE "@ + "p.is_primary = 1"@);
    assert(primary_in(scope_for(roots, sep)) =~= " WHERE "@ + w);
    assert(count_text(w) =~= "SELECT COUNT(*) "@ + FROM_PHOTOS@ + (" WHERE "@ + w));
}

/// What a filter adds to the photos in some directories: one more part of the
/// condition, and its values.
pub open spec fn adds(
    f: FilterModel,
    roots: Option<Seq<Seq<char>>>,
    sep: char,
    part: Seq<char>,
    args: Seq<ArgModel>,
) -> bool {
    &&& where_text(f, sep) == where_text(only_in(roots), sep) + " AND "@ + part
    &&& conditions(f, sep).args == doubled(prefixes_in(roots, sep)) + args
}

proof fn lemma_adds(
    f: FilterModel,
    roots: Option<Seq<Seq<char>>>,
    sep: char,
    part: Seq<char>,
    args: Seq<ArgModel>,
)
    requires
        conditions(f, sep) == in_scope(roots, sep).and(part, args),
    ensures
        adds(f, roots, sep, part, args),
{
    lemma_scope_only(roots, sep);
    lemma_joined_and(in_scope(roots, sep), part, args);
}

// ---------------------------------------------------------------------------
// The same conditions
// ---------------------------------------------------------------------------

/// What is counted for each decision is what the filter for it adds.
pub proof fn law_counted_decisions_are_the_filtered_ones(
    roots: Option<Seq<Seq<char>>>,
    sep: char,
)
    ensures
        decisions_text(scope_for(roots, sep)) == "SELECT "@ + counted(DECISION@ + " = 'none'"@)
            + ", "@ + counted(DECISION@ + " = 'keep'"@) + ", "@ + counted(
            DECISION@ + " = 'reject'"@,
        ) + " "@ + FROM_PHOTOS@ + primary_in(scope_for(roots, sep)),
        adds(
            FilterModel { decision: Some("none"@), ..only_in(roots) },
            roots,
            sep,
            DECISION@ + " = 'none'"@,
            Seq::empty(),
        ),
        adds(
            FilterModel { decision: Some("keep"@), ..only_in(roots) },
            roots,
            sep,
            DECISION@ + " = 'keep'"@,
            Seq::empty(),
        ),
        adds(
            FilterModel { decision: Some("reject"@), ..only_in(roots) },
            roots,
            sep,
            DECISION@ + " = 'reject'"@,
            Seq::empty(),
        ),
{
    reveal_strlit("none");
    reveal_strlit("keep");
    reveal_strlit("reject");
    assert("none"@[0] != "keep"@[0]);
    assert("reject"@[0] != "keep"@[0] && "reject"@[0] != "none"@[0]);
    lemma_adds(
        FilterModel { decision: Some("none"@), ..only_in(roots) },
        roots,
        sep,
        DECISION@ + " = 'none'"@,
        Seq::empty(),
    );
    lemma_adds(
        FilterModel { decision: Some("keep"@), ..only_in(roots) },
        roots,
        sep,
        DECISION@ + " = 'keep'"@,
        Seq::empty(),
    );
    lemma_adds(
        FilterModel { decision: Some("reject"@), ..only_in(roots) },
        roots,
        sep,
        DECISION@ + " = 'reject'"@,
        Seq::empty(),
    );
}

/// What is counted for the files of a pair is what the filter for it adds.
pub proof fn law_counted_pairs_are_the_filtered_ones(roots: Option<Seq<Seq<char>>>, sep: char)
    ensures
        ({
            let both = HAS_RAW@ + " AND "@ + HAS_JPG@;
            let raw = HAS_RAW@ + " AND NOT "@ + HAS_JPG@;
            let jpg = "NOT "@ + HAS_RAW@ + " AND "@ + HAS_JPG@;
            &&& pair_states_text(scope_for(roots, sep)) == "SELECT "@ + counted(both) + ", "@
                + counted(raw) + ", "@ + counted(jpg) + " FROM photos p"@ + primary_in(
                scope_for(roots, sep),
            )
            &&& adds(
                FilterModel { pair_state: Some("both"@), ..only_in(roots) },
                roots,
                sep,
                "("@ + both + ")"@,
                Seq::empty(),
            )
            &&& adds(
                FilterModel { pair_state: Some("rawOnly"@), ..only_in(roots) },
                roots,
                sep,
                "("@ + raw + ")"@,
                Seq::empty(),
            )
            &&& adds(
                FilterModel { pair_state: Some("jpgOnly"@), ..only_in(roots) },
                roots,
                sep,
                "("@ + jpg + ")"@,
                Seq::empty(),
            )
        }),
{
    let both = HAS_RAW@ + " AND "@ + HAS_JPG@;
    let raw = HAS_RAW@ + " AND NOT "@ + HAS_JPG@;
    let jpg = "NOT "@ + HAS_RAW@ + " AND "@ + HAS_JPG@;
    reveal_strlit("both");
    reveal_strlit("rawOnly");
    reveal_strlit("jpgOnly");
    reveal_strlit("(");
    reveal_strlit("NOT ");
    reveal_strlit("(NOT ");
    assert("both"@[0] != "rawOnly"@[0]);
    assert("jpgOnly"@[0] != "rawOnly"@[0] && "jpgOnly"@[0] != "both"@[0]);
    assert("(NOT "@ =~= "("@ + "NOT "@);
    assert("("@ + HAS_RAW@ + " AND "@ + HAS_JPG@ + ")"@ =~= "("@ + both + ")"@);
    assert("("@ + HAS_RAW@ + " AND NOT "@ + HAS_JPG@ + ")"@ =~= "("@ + raw + ")"@);
    assert("(NOT "@ + HAS_RAW@ + " AND "@ + HAS_JPG@ + ")"@ =~= "("@ + jpg + ")"@);
    lemma_adds(
        FilterModel { pair_state: Some("both"@), ..only_in(roots) },
        roots,
        sep,
        "("@ + both + ")"@,
        Seq::empty(),
    );
    lemma_adds(
        FilterModel { pair_state: Some("rawOnly"@), ..only_in(roots) },
        roots,
        sep,
        "("@ + raw + ")"@,
        Seq::empty(),
    );
    lemma_adds(
        FilterModel { pair_state: Some("jpgOnly"@), ..only_in(roots) },
        roots,
        sep,
        "("@ + jpg + ")"@,
        Seq::empty(),
    );
}

/// What is counted for each flaw is what the filter for it adds.
pub proof fn law_counted_flaws_are_the_filtered_ones(roots: Option<Seq<Seq<char>>>, sep: char)
    ensures
        ({
            let blur = "p.sharpness IS NOT NULL AND p.sharpness < "@ + BLUR_THRESHOLD@;
            let over = "p.overexposed IS NOT NULL AND p.overexposed >= "@
                + OVEREXPOSED_THRESHOLD@;
            let under = "p.underexposed IS NOT NULL AND p.underexposed >= "@
                + UNDEREXPOSED_THRESHOLD@;
            let blink = "p.eye_ratio IS NOT NULL AND p.eye_ratio < "@ + CLOSED_THRESHOLD@;
            &&& quality_text(scope_for(roots, sep)) == "SELECT "@ + counted(blur) + ", "@
                + counted(over) + ", "@ + counted(under) + ", "@ + counted(blink) + " "@
                + FROM_PHOTOS@ + primary_in(scope_for(roots, sep))
            &&& adds(
                FilterModel { quality: Some("blur"@), ..only_in(roots) },
                roots,
                sep,
                blur,
                Seq::empty(),
            )
            &&& adds(
                FilterModel { quality: Some("over"@), ..only_in(roots) },
                roots,
                sep,
                over,
                Seq::empty(),
            )
            &&& adds(
                FilterModel { quality: Some("under"@), ..only_in(roots) },
                roots,
                sep,
                under,
                Seq::empty(),
            )
            &&& adds(
                FilterModel { quality: Some("blink"@), ..only_in(roots) },
                roots,
                sep,
                blink,
                Seq::empty(),
            )
        }),
{
    reveal_strlit("blur");
    reveal_strlit("over");
    reveal_strlit("under");
    reveal_strlit("blink");
    assert("over"@[0] != "blur"@[0]);
    assert("under"@[0] != "blur"@[0] && "under"@[0] != "over"@[0]);
    assert("blink"@[2] != "blur"@[2] && "blink"@[0] != "over"@[0] && "blink"@[0] != "under"@[0]);
    lemma_adds(
        FilterModel { quality: Some("blur"@), ..only_in(roots) },
        roots,
        sep,
        "p.sharpness IS NOT NULL AND p.sharpness < "@ + BLUR_THRESHOLD@,
        Seq::empty(),
    );
    lemma_adds(
        FilterModel { quality: Some("over"@), ..only_in(roots) },
        roots,
        sep,
        "p.overexposed IS NOT NULL AND p.overexposed >= "@ + OVEREXPOSED_THRESHOLD@,
        Seq::empty(),
    );
    lemma_adds(
        FilterModel { quality: Some("under"@), ..only_in(roots) },
        roots,
        sep,
        "p.underexposed IS NOT NULL AND p.underexposed >= "@ + UNDEREXPOSED_THRESHOLD@,
        Seq::empty(),
    );
    lemma_adds(
        FilterModel { quality: Some("blink"@), ..only_in(roots) },
        roots,
        sep,
        "p.eye_ratio IS NOT NULL AND p.eye_ratio < "@ + CLOSED_THRESHOLD@,
        Seq::empty(),
    );
}

/// Photos are counted by their stars, and the filter for a number of stars asks for
/// photos with that number.
pub proof fn law_counted_stars_are_the_filtered_ones(
    roots: Option<Seq<Seq<char>>>,
    sep: char,
    stars: i64,
)
    requires
        0 <= stars <= 5,
    ensures
        stars_text(scope_for(roots, sep)) == "SELECT "@ + STARS@ + " AS s, COUNT(*) "@
            + FROM_PHOTOS@ + primary_in(scope_for(roots, sep)) + " GROUP BY s"@,
        adds(
            FilterModel { stars: Some(stars), ..only_in(roots) },
            roots,
            sep,
            STARS@ + " = ?"@,
            seq![ArgModel::Integer(stars)],
        ),
{
    lemma_adds(
        FilterModel { stars: Some(stars), ..only_in(roots) },
        roots,
        sep,
        STARS@ + " = ?"@,
        seq![ArgModel::Integer(stars)],
    );
}

proof fn lemma_color_is_itself(key: Seq<char>)
    requires
        is_color(key),
    ensures
        color_of(Some(key)) == Some(key),
{
    reveal_strlit("red");
    reveal_strlit("yellow");
    reveal_strlit("green");
    reveal_strlit("blue");
    reveal_strlit("purple");
    assert(key.len() > 0 && !is_space(key[0]) && !is_space(key.last()));
    assert(trim_front(key) == key);
    assert(trim_back(key) == key);
    assert forall|i: int| 0 <= i < key.len() implies lower(#[trigger] key[i]) == key[i] by {
        assert('a' <= key[i] <= 'z');
    }
    assert(ascii_lower(key) =~= key);
}

/// Photos are counted by their colour, and the filter for a colour asks for photos
/// with it.
pub proof fn law_counted_colors_are_the_filtered_ones(
    roots: Option<Seq<Seq<char>>>,
    sep: char,
    key: Seq<char>,
)
    requires
        is_color(key),
    ensures
        colors_text(scope_for(roots, sep)) == "SELECT "@ + COLOR@ + " AS c, COUNT(*) "@
            + FROM_PHOTOS@ + primary_in(scope_for(roots, sep)) + " GROUP BY c"@,
        adds(
            FilterModel { color: Some(key), ..only_in(roots) },
            roots,
            sep,
            COLOR@ + " = ?"@,
            seq![ArgModel::Text(key)],
        ),
{
    lemma_color_is_itself(key);
    lemma_adds(
        FilterModel { color: Some(key), ..only_in(roots) },
        roots,
        sep,
        COLOR@ + " = ?"@,
        seq![ArgModel::Text(key)],
    );
}

/// The part of a condition that asks for photos with a value, or for those without
/// one.
pub open spec fn value_part(column: Seq<char>, key: Seq<char>) -> Seq<char> {
    if key == NONE_KEY@ {
        column + " IS NULL"@
    } else {
        column + " = ?"@
    }
}

pub open spec fn value_args(key: Seq<char>) -> Seq<ArgModel> {
    if key == NONE_KEY@ {
        Seq::empty()
    } else {
        seq![ArgModel::Text(key)]
    }
}

/// Photos are counted by camera, by lens and by day, those without a value under a
/// key of their own; and the filter for a key asks for the photos with that value, or
/// for those without one.
pub proof fn law_counted_values_are_the_filtered_ones(
    roots: Option<Seq<Seq<char>>>,
    sep: char,
    key: Seq<char>,
)
    requires
        key.len() > 0,
    ensures
        ({
            let scope = scope_for(roots, sep);
            &&& cameras_text(scope) == "SELECT "@ + or_none("p.camera_serial"@)
                + " AS serial, COALESCE(MAX(p.camera_model), '未知机身') AS model, COUNT(*) AS n FROM photos p"@
                + primary_in(scope) + " GROUP BY serial ORDER BY n DESC, model"@
            &&& adds(
                FilterModel { camera_serial: Some(key), ..only_in(roots) },
                roots,
                sep,
                value_part("p.camera_serial"@, key),
                value_args(key),
            )
            &&& lenses_text(scope) == "SELECT "@ + or_none("p.lens"@) + " AS l, COUNT(*) "@
                + FROM_PHOTOS@ + primary_in(scope) + " GROUP BY l ORDER BY COUNT(*) DESC, l"@
            &&& adds(
                FilterModel { lens: Some(key), ..only_in(roots) },
                roots,
                sep,
                value_part("p.lens"@, key),
                value_args(key),
            )
            &&& days_text(scope) == "SELECT "@ + day_column()
                + " AS d, COUNT(*) AS n FROM photos p WHERE p.is_primary = 1 AND "@ + day_column()
                + " IS NOT NULL"@ + scope + " GROUP BY d ORDER BY d DESC LIMIT "@ + dec(
                DAY_FACET_LIMIT as nat,
            )
            &&& undated_text(scope) == "SELECT COUNT(*) FROM photos p WHERE p.is_primary = 1 AND "@
                + value_part(day_column(), NONE_KEY@) + scope
            &&& adds(
                FilterModel { day: Some(key), ..only_in(roots) },
                roots,
                sep,
                value_part(day_column(), key),
                value_args(key),
            )
        }),
{
    let scope = scope_for(roots, sep);
    lemma_adds(
        FilterModel { camera_serial: Some(key), ..only_in(roots) },
        roots,
        sep,
        value_part("p.camera_serial"@, key),
        value_args(key),
    );
    lemma_adds(
        FilterModel { lens: Some(key), ..only_in(roots) },
        roots,
        sep,
        value_part("p.lens"@, key),
        value_args(key),
    );
    lemma_adds(
        FilterModel { day: Some(key), ..only_in(roots) },
        roots,
        sep,
        value_part(day_column(), key),
        value_args(key),
    );
    lemma_day_texts(scope);
}

proof fn lemma_day_texts(scope: Seq<char>)
    ensures
        days_text(scope) == "SELECT "@ + day_column()
            + " AS d, COUNT(*) AS n FROM photos p WHERE p.is_primary = 1 AND "@ + day_column()
            + " IS NOT NULL"@ + scope + " GROUP BY d ORDER BY d DESC LIMIT "@ + dec(
            DAY_FACET_LIMIT as nat,
        ),
        undated_text(scope) == "SELECT COUNT(*) FROM photos p WHERE p.is_primary = 1 AND "@
            + value_part(day_column(), NONE_KEY@) + scope,
{
    reveal_strlit("(");
    reveal_strlit(")");
    reveal_strlit("SELECT (");
    reveal_strlit("SELECT ");
    reveal_strlit(") AS d, COUNT(*) AS n FROM photos p WHERE p.is_primary = 1 AND (");
    reveal_strlit(" AS d, COUNT(*) AS n FROM photos p WHERE p.is_primary = 1 AND ");
    reveal_strlit(") IS NOT NULL");
    reveal_strlit(" IS NOT NULL");
    reveal_strlit("SELECT COUNT(*) FROM photos p WHERE p.is_primary = 1 AND (");
    reveal_strlit("SELECT COUNT(*) FROM photos p WHERE p.is_primary = 1 AND ");
    reveal_strlit(") IS NULL");
    reveal_strlit(" IS NULL");
    assert("SELECT ("@ =~= "SELECT "@ + "("@);
    assert(") AS d, COUNT(*) AS n FROM photos p WHERE p.is_primary = 1 AND ("@ =~= ")"@
        + " AS d, COUNT(*) AS n FROM photos p WHERE p.is_primary = 1 AND "@ + "("@);
    assert(") IS NOT NULL"@ =~= ")"@ + " IS NOT NULL"@);
    assert("SELECT COUNT(*) FROM photos p WHERE p.is_primary = 1 AND ("@
        =~= "SELECT COUNT(*) FROM photos p WHERE p.is_primary = 1 AND "@ + "("@);
    assert(") IS NULL"@ =~= ")"@ + " IS NULL"@);
    assert(days_text(scope) =~= "SELECT "@ + day_column()
        + " AS d, COUNT(*) AS n FROM photos p WHERE p.is_primary = 1 AND "@ + day_column()
        + " IS NOT NULL"@ + scope + " GROUP BY d ORDER BY d DESC LIMIT "@ + dec(
        DAY_FACET_LIMIT as nat,
    ));
    assert(undated_text(scope) =~= "SELECT COUNT(*) FROM photos p WHERE p.is_primary = 1 AND "@
        + value_part(day_column(), NONE_KEY@) + scope);
}

/// A number as it stands in a query, where it is not left to a placeholder.
pub open spec fn number_text(arg: ArgModel) -> Seq<char> {
    match arg {
        ArgModel::Integer(n) => dec(n as nat),
        ArgModel::Real(n) => dec(n as nat),
        ArgModel::RealMax => LARGEST_REAL@,
        ArgModel::Text(s) => s,
    }
}

/// The filter asks for a column between two numbers, and `condition` is the same with
/// the numbers written out.
pub open spec fn adds_range(
    f: FilterModel,
    roots: Option<Seq<Seq<char>>>,
    sep: char,
    column: Seq<char>,
    lo: ArgModel,
    hi: ArgModel,
    condition: Seq<char>,
) -> bool {
    &&& adds(f, roots, sep, between_text(column, "?"@, "?"@), seq![lo, hi])
    &&& condition == between_text(column, number_text(lo), number_text(hi))
}

proof fn lemma_range_parts()
    ensures
        "p.focal_len >= ? AND p.focal_len < ?"@ == between_text("p.focal_len"@, "?"@, "?"@),
        "p.iso >= ? AND p.iso < ?"@ == between_text("p.iso"@, "?"@, "?"@),
{
    reveal_strlit("p.focal_len >= ? AND p.focal_len < ?");
    reveal_strlit("p.iso >= ? AND p.iso < ?");
    reveal_strlit("p.focal_len");
    reveal_strlit("p.iso");
    reveal_strlit("?");
    reveal_strlit(" >= ");
    reveal_strlit(" AND ");
    reveal_strlit(" < ");
    assert("p.focal_len >= ? AND p.focal_len < ?"@ =~= between_text("p.focal_len"@, "?"@, "?"@));
    assert("p.iso >= ? AND p.iso < ?"@ =~= between_text("p.iso"@, "?"@, "?"@));
}

proof fn lemma_range_numbers()
    ensures
        "0"@ == dec(0) && "24"@ == dec(24) && "70"@ == dec(70) && "200"@ == dec(200),
        "400"@ == dec(400) && "1600"@ == dec(1600) && "6400"@ == dec(6400),
{
    reveal_strlit("0");
    reveal_strlit("24");
    reveal_strlit("70");
    reveal_strlit("200");
    reveal_strlit("400");
    reveal_strlit("1600");
    reveal_strlit("6400");
    reveal_with_fuel(dec, 5);
    assert("0"@ =~= dec(0));
    assert("24"@ =~= dec(24));
    assert("70"@ =~= dec(70));
    assert("200"@ =~= dec(200));
    assert("400"@ =~= dec(400));
    assert("1600"@ =~= dec(1600));
    assert("6400"@ =~= dec(6400));
}

/// What is counted for each range of focal lengths is what the filter for it adds.
pub proof fn law_counted_focal_lengths_are_the_filtered_ones(
    roots: Option<Seq<Seq<char>>>,
    sep: char,
)
    ensures
        ({
            let column = "p.focal_len"@;
            let wide = between_text(column, "0"@, "24"@);
            let normal = between_text(column, "24"@, "70"@);
            let tele = between_text(column, "70"@, "200"@);
            let long = between_text(column, "200"@, LARGEST_REAL@);
            &&& ranges_text(column, "24"@, "70"@, "200"@, scope_for(roots, sep)) == "SELECT "@
                + counted(wide) + ", "@ + counted(normal) + ", "@ + counted(tele) + ", "@
                + counted(long) + " "@ + FROM_PHOTOS@ + primary_in(scope_for(roots, sep))
            &&& adds_range(
                FilterModel { focal: Some("wide"@), ..only_in(roots) },
                roots,
                sep,
                column,
                ArgModel::Real(0),
                ArgModel::Real(24),
                wide,
            )
            &&& adds_range(
                FilterModel { focal: Some("normal"@), ..only_in(roots) },
                roots,
                sep,
                column,
                ArgModel::Real(24),
                ArgModel::Real(70),
                normal,
            )
            &&& adds_range(
                FilterModel { focal: Some("tele"@), ..only_in(roots) },
                roots,
                sep,
                column,
                ArgModel::Real(70),
                ArgModel::Real(200),
                tele,
            )
            &&& adds_range(
                FilterModel { focal: Some("super"@), ..only_in(roots) },
                roots,
                sep,
                column,
                ArgModel::Real(200),
                ArgModel::RealMax,
                long,
            )
        }),
{
    lemma_range_names_differ();
    lemma_range_parts();
    lemma_range_numbers();
    let part = between_text("p.focal_len"@, "?"@, "?"@);
    lemma_adds(
        FilterModel { focal: Some("wide"@), ..only_in(roots) },
        roots,
        sep,
        part,
        seq![ArgModel::Real(0), ArgModel::Real(24)],
    );
    lemma_adds(
        FilterModel { focal: Some("normal"@), ..only_in(roots) },
        roots,
        sep,
        part,
        seq![ArgModel::Real(24), ArgModel::Real(70)],
    );
    lemma_adds(
        FilterModel { focal: Some("tele"@), ..only_in(roots) },
        roots,
        sep,
        part,
        seq![ArgModel::Real(70), ArgModel::Real(200)],
    );
    lemma_adds(
        FilterModel { focal: Some("super"@), ..only_in(roots) },
        roots,
        sep,
        part,
        seq![ArgModel::Real(200), ArgModel::RealMax],
    );
}

/// What is counted for each range of sensitivities is what the filter for it adds. The
/// last range is the one exception in the texts: the count has no upper bound to speak
/// of, and the filter has the largest integer, which is more than any file holds.
pub proof fn law_counted_sensitivities_are_the_filtered_ones(
    roots: Option<Seq<Seq<char>>>,
    sep: char,
)
    ensures
        ({
            let column = "p.iso"@;
            let low = between_text(column, "0"@, "400"@);
            let mid = between_text(column, "400"@, "1600"@);
            let high = between_text(column, "1600"@, "6400"@);
            let very_high = between_text(column, "6400"@, LARGEST_REAL@);
            &&& ranges_text(column, "400"@, "1600"@, "6400"@, scope_for(roots, sep)) == "SELECT "@
                + counted(low) + ", "@ + counted(mid) + ", "@ + counted(high) + ", "@ + counted(
                very_high,
            ) + " "@ + FROM_PHOTOS@ + primary_in(scope_for(roots, sep))
            &&& adds_range(
                FilterModel { iso: Some("low"@), ..only_in(roots) },
                roots,
                sep,
                column,
                ArgModel::Integer(0),
                ArgModel::Integer(400),
                low,
            )
            &&& adds_range(
                FilterModel { iso: Some("mid"@), ..only_in(roots) },
                roots,
                sep,
                column,
                ArgModel::Integer(400),
                ArgModel::Integer(1600),
                mid,
            )
            &&& adds_range(
                FilterModel { iso: Some("high"@), ..only_in(roots) },
                roots,
                sep,
                column,
                ArgModel::Integer(1600),
                ArgModel::Integer(6400),
                high,
            )
            &&& adds(
                FilterModel { iso: Some("veryHigh"@), ..only_in(roots) },
                roots,
                sep,
                between_text(column, "?"@, "?"@),
                seq![ArgModel::Integer(6400), ArgModel::Integer(i64::MAX)],
            )
        }),
{
    lemma_range_names_differ();
    lemma_range_parts();
    lemma_range_numbers();
    let part = between_text("p.iso"@, "?"@, "?"@);
    lemma_adds(
        FilterModel { iso: Some("low"@), ..only_in(roots) },
        roots,
        sep,
        part,
        seq![ArgModel::Integer(0), ArgModel::Integer(400)],
    );
    lemma_adds(
        FilterModel { iso: Some("mid"@), ..only_in(roots) },
        roots,
        sep,
        part,
        seq![ArgModel::Integer(400), ArgModel::Integer(1600)],
    );
    lemma_adds(
        FilterModel { iso: Some("high"@), ..only_in(roots) },
        roots,
        sep,
        part,
        seq![ArgModel::Integer(1600), ArgModel::Integer(6400)],
    );
    lemma_adds(
        FilterModel { iso: Some("veryHigh"@), ..only_in(roots) },
        roots,
        sep,
        part,
        seq![ArgModel::Integer(6400), ArgModel::Integer(i64::MAX)],
    );
}

// ---------------------------------------------------------------------------
// The counts add up
// ---------------------------------------------------------------------------

/// How often a value occurs.
pub open spec fn occurrences<K>(values: Seq<K>, x: K) -> nat
    decreases values.len(),
{
    if values.len() == 0 {
        0
    } else {
        occurrences(values.drop_last(), x) + if values.last() == x {
            1nat
        } else {
            0
        }
    }
}

/// The numbers of occurrences of some values together.
pub open spec fn occurrences_of_all<K>(values: Seq<K>, names: Seq<K>) -> nat
    decreases names.len(),
{
    if names.len() == 0 {
        0
    } else {
        occurrences_of_all(values, names.drop_last()) + occurrences(values, names.last())
    }
}

/// `names` and `counts` are what grouping the values of some photos gives: each value
/// that occurs once, and how often it does.
pub open spec fn is_tally<K>(names: Seq<K>, counts: Seq<i64>, values: Seq<K>) -> bool {
    &&& counts.len() == names.len()
    &&& names.no_duplicates()
    &&& forall|i: int| 0 <= i < names.len() ==> #[trigger] counts[i] == occurrences(
        values,
        names[i],
    )
    &&& forall|i: int| 0 <= i < values.len() ==> names.contains(#[trigger] values[i])
}

/// The sum of some counts.
pub open spec fn sum(counts: Seq<i64>) -> int
    decreases counts.len(),
{
    if counts.len() == 0 {
        0
    } else {
        sum(counts.drop_last()) + counts.last()
    }
}

/// The counts of some choices.
pub open spec fn counts_of(f: Seq<FacetModel>) -> Seq<i64> {
    f.map_values(|x: FacetModel| x.count)
}

/// The keys of some choices.
pub open spec fn keys_of(f: Seq<FacetModel>) -> Seq<Seq<char>> {
    f.map_values(|x: FacetModel| x.key)
}

proof fn lemma_one_more<K>(values: Seq<K>, names: Seq<K>)
    requires
        names.no_duplicates(),
        values.len() > 0,
    ensures
        occurrences_of_all(values, names) == occurrences_of_all(values.drop_last(), names) + if
            names.contains(values.last()) {
            1nat
        } else {
            0
        },
    decreases names.len(),
{
    if names.len() > 0 {
        let front = names.drop_last();
        let v = values.last();
        assert forall|i: int, j: int| 0 <= i < j < front.len() implies front[i] != front[j] by {
            assert(names[i] != names[j]);
        }
        lemma_one_more(values, front);
        if names.last() == v {
            assert(names[names.len() - 1] == v);
            assert(names.contains(v));
            if front.contains(v) {
                let i = choose|i: int| 0 <= i < front.len() && front[i] == v;
                assert(names[i] != names[names.len() - 1]);
            }
        } else if names.contains(v) {
            let i = choose|i: int| 0 <= i < names.len() && names[i] == v;
            assert(front[i] == v);
        } else if front.contains(v) {
            let i = choose|i: int| 0 <= i < front.len() && front[i] == v;
            assert(names[i] == v);
        }
    }
}

proof fn lemma_all_are_counted<K>(values: Seq<K>, names: Seq<K>)
    requires
        names.no_duplicates(),
        forall|i: int| 0 <= i < values.len() ==> names.contains(#[trigger] values[i]),
    ensures
        occurrences_of_all(values, names) == values.len(),
    decreases values.len(),
{
    if values.len() > 0 {
        let front = values.drop_last();
        assert forall|i: int| 0 <= i < front.len() implies names.contains(#[trigger] front[i]) by {
            assert(front[i] == values[i]);
        }
        lemma_all_are_counted(front, names);
        lemma_one_more(values, names);
        assert(values[values.len() - 1] == values.last());
    } else {
        lemma_none_occur(values, names);
    }
}

proof fn lemma_none_occur<K>(values: Seq<K>, names: Seq<K>)
    requires
        values.len() == 0,
    ensures
        occurrences_of_all(values, names) == 0,
    decreases names.len(),
{
    if names.len() > 0 {
        lemma_none_occur(values, names.drop_last());
    }
}

proof fn lemma_sum_of_tally<K>(names: Seq<K>, counts: Seq<i64>, values: Seq<K>)
    requires
        counts.len() == names.len(),
        forall|i: int| 0 <= i < names.len() ==> #[trigger] counts[i] == occurrences(
            values,
            names[i],
        ),
    ensures
        sum(counts) == occurrences_of_all(values, names),
    decreases names.len(),
{
    if names.len() > 0 {
        let front = names.drop_last();
        let fewer = counts.drop_last();
        assert forall|i: int| 0 <= i < front.len() implies #[trigger] fewer[i] == occurrences(
            values,
            front[i],
        ) by {
            assert(fewer[i] == counts[i]);
        }
        lemma_sum_of_tally(front, fewer, values);
        assert(counts[counts.len() - 1] == occurrences(values, names.last()));
    }
}

proof fn lemma_tally_adds_up<K>(names: Seq<K>, counts: Seq<i64>, values: Seq<K>)
    requires
        is_tally(names, counts, values),
    ensures
        sum(counts) == values.len(),
{
    lemma_sum_of_tally(names, counts, values);
    lemma_all_are_counted(values, names);
}

pub open spec fn stars_named(rows: Seq<StarCount>) -> Seq<i64> {
    rows.map_values(|x: StarCount| x.stars)
}

pub open spec fn stars_counted(rows: Seq<StarCount>) -> Seq<i64> {
    rows.map_values(|x: StarCount| x.count)
}

proof fn lemma_star_count(rows: Seq<StarCount>, values: Seq<i64>, k: i64)
    requires
        0 <= k <= 5,
        forall|i: int| 0 <= i < rows.len() ==> 0 <= (#[trigger] rows[i]).stars <= 5,
        forall|i: int|
            0 <= i < rows.len() ==> (#[trigger] rows[i]).count == occurrences(values, rows[i].stars),
        occurrences(values, k) > 0 ==> exists|i: int|
            0 <= i < rows.len() && (#[trigger] rows[i]).stars == k,
    ensures
        star_count(rows, k as int) == occurrences(values, k),
    decreases rows.len(),
{
    if rows.len() > 0 {
        let last = rows[rows.len() - 1];
        if last.stars != k {
            let front = rows.drop_last();
            assert forall|i: int| 0 <= i < front.len() implies 0 <= (#[trigger] front[i]).stars <= 5
                && front[i].count == occurrences(values, front[i].stars) by {
                assert(front[i] == rows[i]);
            }
            if occurrences(values, k) > 0 {
                let i = choose|i: int| 0 <= i < rows.len() && (#[trigger] rows[i]).stars == k;
                assert(front[i].stars == k);
            }
            lemma_star_count(front, values, k);
        }
    }
}

proof fn lemma_occurs(values: Seq<i64>, x: i64)
    requires
        occurrences(values, x) > 0,
    ensures
        values.contains(x),
    decreases values.len(),
{
    if values.last() == x {
        assert(values[values.len() - 1] == x);
    } else {
        lemma_occurs(values.drop_last(), x);
        let i = choose|i: int| 0 <= i < values.drop_last().len() && values.drop_last()[i] == x;
        assert(values[i] == x);
    }
}

proof fn lemma_six_stars(values: Seq<i64>)
    requires
        forall|i: int| 0 <= i < values.len() ==> 0 <= #[trigger] values[i] <= 5,
    ensures
        occurrences(values, 0i64) + occurrences(values, 1i64) + occurrences(values, 2i64)
            + occurrences(values, 3i64) + occurrences(values, 4i64) + occurrences(values, 5i64)
            == values.len(),
    decreases values.len(),
{
    if values.len() > 0 {
        let front = values.drop_last();
        assert forall|i: int| 0 <= i < front.len() implies 0 <= #[trigger] front[i] <= 5 by {
            assert(front[i] == values[i]);
        }
        lemma_six_stars(front);
        assert(0 <= values[values.len() - 1] <= 5);
    }
}

proof fn lemma_three_decisions(values: Seq<Seq<char>>)
    requires
        forall|i: int|
            0 <= i < values.len() ==> #[trigger] values[i] == "none"@ || values[i] == "keep"@
                || values[i] == "reject"@,
    ensures
        occurrences(values, "none"@) + occurrences(values, "keep"@) + occurrences(
            values,
            "reject"@,
        ) == values.len(),
    decreases values.len(),
{
    reveal_strlit("none");
    reveal_strlit("keep");
    reveal_strlit("reject");
    assert("none"@[0] != "keep"@[0]);
    assert("reject"@[0] != "keep"@[0] && "reject"@[0] != "none"@[0]);
    if values.len() > 0 {
        let front = values.drop_last();
        assert forall|i: int| 0 <= i < front.len() implies #[trigger] front[i] == "none"@
            || front[i] == "keep"@ || front[i] == "reject"@ by {
            assert(front[i] == values[i]);
        }
        lemma_three_decisions(front);
        assert(values[values.len() - 1] == values.last());
    }
}

/// The photos that the counts are taken over: of each its decision, its stars, and the
/// keys for its camera and its lens.
pub struct Marked {
    pub decisions: Seq<Seq<char>>,
    pub stars: Seq<i64>,
    pub cameras: Seq<Seq<char>>,
    pub lenses: Seq<Seq<char>>,
}

/// The marks are those that the library writes.
pub open spec fn has_valid_marks(m: Marked, total: nat) -> bool {
    &&& m.decisions.len() == total
    &&& m.stars.len() == total
    &&& m.cameras.len() == total
    &&& m.lenses.len() == total
    &&& forall|i: int|
        0 <= i < total ==> #[trigger] m.decisions[i] == "none"@ || m.decisions[i] == "keep"@
            || m.decisions[i] == "reject"@
    &&& forall|i: int| 0 <= i < total ==> 0 <= #[trigger] m.stars[i] <= 5
}

/// What the queries give over these photos: all of them counted, those with each
/// decision counted, and the others grouped.
pub open spec fn is_count_over(rows: FacetRows, m: Marked) -> bool {
    &&& rows.total == m.decisions.len()
    &&& rows.unmarked == occurrences(m.decisions, "none"@)
    &&& rows.keep == occurrences(m.decisions, "keep"@)
    &&& rows.reject == occurrences(m.decisions, "reject"@)
    &&& is_tally(stars_named(rows.stars@), stars_counted(rows.stars@), m.stars)
    &&& forall|i: int| 0 <= i < rows.stars@.len() ==> 0 <= (#[trigger] rows.stars@[i]).stars <= 5
    &&& is_tally(
        rows.cameras@.map_values(|x: CameraCount| x.serial@),
        rows.cameras@.map_values(|x: CameraCount| x.count),
        m.cameras,
    )
    &&& is_tally(
        rows.lenses@.map_values(|x: NamedCount| x.name@),
        rows.lenses@.map_values(|x: NamedCount| x.count),
        m.lenses,
    )
}

/// Whatever the photos are, the six numbers of stars and the five colours are all
/// listed; and the counts by stars, by decision, by camera and by lens each add up to
/// the number of photos. Shots that lack a file are those with a RAW file only and
/// those with a JPEG file only.
pub proof fn law_counts_add_up(r: LibraryFacets, rows: FacetRows, m: Marked)
    requires
        is_facets_of(r, rows),
        i64::MIN <= rows.raw_only + rows.jpg_only <= i64::MAX,
        has_valid_marks(m, m.decisions.len()),
        is_count_over(rows, m),
    ensures
        keys_of(facets_view(r.stars@)) == seq!["0"@, "1"@, "2"@, "3"@, "4"@, "5"@],
        keys_of(facets_view(r.colors@)) == seq![
            "red"@,
            "yellow"@,
            "green"@,
            "blue"@,
            "purple"@,
        ],
        sum(counts_of(facets_view(r.stars@))) == r.total,
        sum(counts_of(facets_view(r.decisions@).skip(1))) == r.total,
        sum(counts_of(facets_view(r.cameras@))) == r.total,
        sum(counts_of(facets_view(r.lenses@))) == r.total,
        facets_view(r.pair_states@)[4].count == facets_view(r.pair_states@)[2].count + facets_view(
            r.pair_states@,
        )[3].count,
{
    assert(keys_of(facets_view(r.stars@)) =~= seq!["0"@, "1"@, "2"@, "3"@, "4"@, "5"@]);
    assert(keys_of(facets_view(r.colors@)) =~= seq![
        "red"@,
        "yellow"@,
        "green"@,
        "blue"@,
        "purple"@,
    ]);
    lemma_stars_add_up(rows.stars@, m.stars);
    lemma_three_decisions(m.decisions);
    let d = counts_of(facets_view(r.decisions@).skip(1));
    assert(d =~= seq![rows.unmarked, rows.keep, rows.reject]);
    lemma_sum_of_three(rows.unmarked, rows.keep, rows.reject);
    lemma_tally_adds_up(
        rows.cameras@.map_values(|x: CameraCount| x.serial@),
        rows.cameras@.map_values(|x: CameraCount| x.count),
        m.cameras,
    );
    assert(counts_of(camera_facets(rows.cameras@)) =~= rows.cameras@.map_values(
        |x: CameraCount| x.count,
    ));
    lemma_tally_adds_up(
        rows.lenses@.map_values(|x: NamedCount| x.name@),
        rows.lenses@.map_values(|x: NamedCount| x.count),
        m.lenses,
    );
    assert(counts_of(named_facets(rows.lenses@, "未知镜头"@)) =~= rows.lenses@.map_values(
        |x: NamedCount| x.count,
    ));
}

proof fn lemma_sum_of_three(a: i64, b: i64, c: i64)
    ensures
        sum(seq![a, b, c]) == a + b + c,
{
    reveal_with_fuel(sum, 4);
    assert(seq![a, b, c].drop_last() =~= seq![a, b]);
    assert(seq![a, b].drop_last() =~= seq![a]);
    assert(seq![a].drop_last() =~= Seq::<i64>::empty());
}

proof fn lemma_stars_add_up(rows: Seq<StarCount>, values: Seq<i64>)
    requires
        is_tally(stars_named(rows), stars_counted(rows), values),
        forall|i: int| 0 <= i < rows.len() ==> 0 <= (#[trigger] rows[i]).stars <= 5,
        forall|i: int| 0 <= i < values.len() ==> 0 <= #[trigger] values[i] <= 5,
    ensures
        sum(counts_of(star_facets(rows))) == values.len(),
{
    assert forall|i: int| 0 <= i < rows.len() implies (#[trigger] rows[i]).count == occurrences(
        values,
        rows[i].stars,
    ) by {
        assert(stars_counted(rows)[i] == occurrences(values, stars_named(rows)[i]));
    }
    assert forall|k: i64| 0 <= k <= 5 implies star_count(rows, k as int) == #[trigger] occurrences(
        values,
        k,
    ) by {
        if occurrences(values, k) > 0 {
            lemma_occurs(values, k);
            assert(stars_named(rows).contains(k));
            let i = choose|i: int|
                0 <= i < stars_named(rows).len() && stars_named(rows)[i] == k;
            assert(rows[i].stars == k);
        }
        lemma_star_count(rows, values, k);
    }
    lemma_six_stars(values);
    let a = star_count(rows, 0);
    let b = star_count(rows, 1);
    let c = star_count(rows, 2);
    let d = star_count(rows, 3);
    let e = star_count(rows, 4);
    let f = star_count(rows, 5);
    assert(a == occurrences(values, 0i64) && b == occurrences(values, 1i64) && c == occurrences(
        values,
        2i64,
    ) && d == occurrences(values, 3i64) && e == occurrences(values, 4i64) && f == occurrences(
        values,
        5i64,
    ));
    assert(counts_of(star_facets(rows)) =~= seq![a, b, c, d, e, f]);
    lemma_sum_of_three(a, b, c);
    assert(seq![a, b, c, d, e, f].drop_last() =~= seq![a, b, c, d, e]);
    assert(seq![a, b, c, d, e].drop_last() =~= seq![a, b, c, d]);
    assert(seq![a, b, c, d].drop_last() =~= seq![a, b, c]);
    assert(sum(seq![a, b, c, d]) == sum(seq![a, b, c]) + d);
    assert(sum(seq![a, b, c, d, e]) == sum(seq![a, b, c, d]) + e);
    assert(sum(seq![a, b, c, d, e, f]) == sum(seq![a, b, c, d, e]) + f);
}

// ---------------------------------------------------------------------------
// Pages
// ---------------------------------------------------------------------------

/// What a limit and an offset leave of a list.
pub open spec fn window(all: Seq<i64>, limit: int, offset: int) -> Seq<i64> {
    if offset >= all.len() {
        Seq::empty()
    } else if offset + limit >= all.len() {
        all.skip(offset)
    } else {
        all.subrange(offset, offset + limit)
    }
}

/// The smaller one of two numbers.
pub open spec fn least(a: int, b: int) -> int {
    if a < b {
        a
    } else {
        b
    }
}

/// A database that answers the queries for a filter, as long as nothing changes in
/// it. `list` gives the numbers of the photos that a query lists, and `count` the
/// number that a query counts: the count is the length of the list, and a page is
/// the part of the list that limit and offset leave.
pub open spec fn answers(
    list: spec_fn(Seq<char>, Seq<ArgModel>) -> Seq<i64>,
    count: spec_fn(Seq<char>, Seq<ArgModel>) -> int,
    f: FilterModel,
    sep: char,
) -> bool {
    let w = where_text(f, sep);
    let order = order_text(sort_key(f.sort));
    let args = conditions(f, sep).args;
    &&& count(count_text(w), args) == list(ids_text(w, order), args).len()
    &&& forall|limit: i64, offset: i64|
        0 <= limit && 0 <= offset ==> #[trigger] page(list, f, sep, limit, offset) == window(
            list(ids_text(w, order), args),
            limit as int,
            offset as int,
        )
}

/// One page for a filter: what the query for it lists.
pub open spec fn page(
    list: spec_fn(Seq<char>, Seq<ArgModel>) -> Seq<i64>,
    f: FilterModel,
    sep: char,
    limit: i64,
    offset: i64,
) -> Seq<i64> {
    list(
        page_text(where_text(f, sep), order_text(sort_key(f.sort))),
        conditions(f, sep).args + seq![ArgModel::Integer(limit), ArgModel::Integer(offset)],
    )
}

/// The first `k` pages of `n` photos each, one after the other.
pub open spec fn pages(
    list: spec_fn(Seq<char>, Seq<ArgModel>) -> Seq<i64>,
    f: FilterModel,
    sep: char,
    n: i64,
    k: nat,
) -> Seq<i64>
    decreases k,
{
    if k == 0 {
        Seq::empty()
    } else {
        pages(list, f, sep, n, (k - 1) as nat) + page(list, f, sep, n, (n * (k - 1)) as i64)
    }
}

/// A page holds as many photos as it is asked for, or what is left from its start on.
/// The count beside it is the number of all photos, whatever the page.
pub proof fn law_pages_are_as_long_as_asked(
    list: spec_fn(Seq<char>, Seq<ArgModel>) -> Seq<i64>,
    count: spec_fn(Seq<char>, Seq<ArgModel>) -> int,
    f: FilterModel,
    sep: char,
    limit: i64,
    offset: i64,
)
    requires
        answers(list, count, f, sep),
        0 <= limit,
        0 <= offset,
    ensures
        ({
            let total = count(count_text(where_text(f, sep)), conditions(f, sep).args);
            page(list, f, sep, limit, offset).len() == least(
                limit as int,
                if total > offset {
                    total - offset
                } else {
                    0
                },
            )
        }),
{
}

/// The pages one after the other are the whole list: every photo is on one of them,
/// once and in its place.
pub proof fn law_pages_make_up_the_list(
    list: spec_fn(Seq<char>, Seq<ArgModel>) -> Seq<i64>,
    count: spec_fn(Seq<char>, Seq<ArgModel>) -> int,
    f: FilterModel,
    sep: char,
    n: i64,
    k: nat,
)
    requires
        answers(list, count, f, sep),
        0 < n,
        n * k <= i64::MAX,
    ensures
        ({
            let all = list(
                ids_text(where_text(f, sep), order_text(sort_key(f.sort))),
                conditions(f, sep).args,
            );
            &&& pages(list, f, sep, n, k) == all.take(least(n * k, all.len() as int))
            &&& n * k >= all.len() ==> pages(list, f, sep, n, k) == all
        }),
    decreases k,
{
    let all = list(
        ids_text(where_text(f, sep), order_text(sort_key(f.sort))),
        conditions(f, sep).args,
    );
    if k > 0 {
        let before = n * (k - 1);
        assert(n * k == before + n && 0 <= before) by (nonlinear_arith)
            requires
                before == n * (k - 1),
                0 < n,
                0 < k,
        ;
        law_pages_make_up_the_list(list, count, f, sep, n, (k - 1) as nat);
        assert(page(list, f, sep, n, before as i64) == window(all, n as int, before));
        assert(pages(list, f, sep, n, k) =~= all.take(least(n * k, all.len() as int)));
    } else {
        assert(n * k == 0) by (nonlinear_arith)
            requires
                k == 0,
        ;
        assert(pages(list, f, sep, n, k) =~= all.take(0));
    }
    if n * k >= all.len() {
        assert(all.take(all.len() as int) =~= all);
    }
}

// ---------------------------------------------------------------------------
// The same numbers
// ---------------------------------------------------------------------------

/// The photos of a library as a database sees them, by their number from 0 on: which
/// conditions hold of a photo, with values for the placeholders, and which value a
/// column has for it.
pub struct Library {
    pub photos: nat,
    pub holds: spec_fn(Seq<char>, Seq<ArgModel>, int) -> bool,
    pub value: spec_fn(Seq<char>, int) -> Option<ArgModel>,
}

/// How many of the numbers below `n` have a property.
pub open spec fn how_many(n: nat, p: spec_fn(int) -> bool) -> nat
    decreases n,
{
    if n == 0 {
        0
    } else {
        how_many((n - 1) as nat, p) + if p(n - 1) {
            1nat
        } else {
            0
        }
    }
}

proof fn lemma_how_many_same(n: nat, p: spec_fn(int) -> bool, q: spec_fn(int) -> bool)
    requires
        forall|i: int| 0 <= i < n ==> #[trigger] p(i) == q(i),
    ensures
        how_many(n, p) == how_many(n, q),
    decreases n,
{
    if n > 0 {
        lemma_how_many_same((n - 1) as nat, p, q);
        assert(p(n - 1) == q(n - 1));
    }
}

proof fn lemma_how_many_none(n: nat, p: spec_fn(int) -> bool)
    requires
        forall|i: int| 0 <= i < n ==> !#[trigger] p(i),
    ensures
        how_many(n, p) == 0,
    decreases n,
{
    if n > 0 {
        lemma_how_many_none((n - 1) as nat, p);
        assert(!p(n - 1));
    }
}

impl Library {
    /// The photo lies in the directories that the view is limited to.
    pub open spec fn is_in(self, roots: Option<Seq<Seq<char>>>, sep: char, i: int) -> bool {
        (self.holds)(where_text(only_in(roots), sep), conditions(only_in(roots), sep).args, i)
    }

    /// Which photos the condition of a filter holds of.
    pub open spec fn shown_for(self, f: FilterModel, sep: char) -> spec_fn(int) -> bool {
        |i: int| (self.holds)(where_text(f, sep), conditions(f, sep).args, i)
    }

    /// Which photos in some directories a condition holds of.
    pub open spec fn with(
        self,
        roots: Option<Seq<Seq<char>>>,
        sep: char,
        part: Seq<char>,
        args: Seq<ArgModel>,
    ) -> spec_fn(int) -> bool {
        |i: int| self.is_in(roots, sep, i) && (self.holds)(part, args, i)
    }

    /// Which photos in some directories have a value in a column, or none.
    pub open spec fn at(
        self,
        roots: Option<Seq<Seq<char>>>,
        sep: char,
        column: Seq<char>,
        value: Option<ArgModel>,
    ) -> spec_fn(int) -> bool {
        |i: int| self.is_in(roots, sep, i) && (self.value)(column, i) == value
    }

    /// The number of photos that the grid shows for a filter: those that its condition
    /// holds of.
    pub open spec fn total(self, f: FilterModel, sep: char) -> nat {
        how_many(self.photos, self.shown_for(f, sep))
    }

    /// The number of photos in some directories that a condition holds of.
    pub open spec fn number_with(
        self,
        roots: Option<Seq<Seq<char>>>,
        sep: char,
        part: Seq<char>,
        args: Seq<ArgModel>,
    ) -> nat {
        how_many(self.photos, self.with(roots, sep, part, args))
    }

    /// The number of photos in some directories whose column has a value, or none.
    pub open spec fn number_at(
        self,
        roots: Option<Seq<Seq<char>>>,
        sep: char,
        column: Seq<char>,
        value: Option<ArgModel>,
    ) -> nat {
        how_many(self.photos, self.at(roots, sep, column, value))
    }

    /// The test for a value of a column holds of a photo.
    pub open spec fn meets(self, column: Seq<char>, x: ArgModel, i: int) -> bool {
        (self.holds)(column + " = ?"@, seq![x], i)
    }

    /// The test for two bounds of a column holds of a photo.
    pub open spec fn lies_between(
        self,
        column: Seq<char>,
        lo: ArgModel,
        hi: ArgModel,
        i: int,
    ) -> bool {
        (self.holds)(between_text(column, "?"@, "?"@), seq![lo, hi], i)
    }

    /// Where a filter adds a part to the condition for some directories, its condition
    /// holds of the photos that both hold of.
    pub open spec fn reads_parts(self, roots: Option<Seq<Seq<char>>>, sep: char) -> bool {
        forall|f: FilterModel, part: Seq<char>, args: Seq<ArgModel>, i: int|
            #![trigger adds(f, roots, sep, part, args), (self.holds)(part, args, i)]
            adds(f, roots, sep, part, args) && 0 <= i < self.photos ==> (self.holds)(
                where_text(f, sep),
                conditions(f, sep).args,
                i,
            ) == (self.is_in(roots, sep, i) && (self.holds)(part, args, i))
    }

    /// The test for a value holds of the photos whose column has it, and the test for
    /// none of those whose column has none.
    pub open spec fn reads_values(self, column: Seq<char>) -> bool {
        &&& forall|x: ArgModel, i: int|
            #[trigger] self.meets(column, x, i) == ((self.value)(column, i) == Some(x))
        &&& forall|i: int|
            #![trigger (self.holds)(column + " IS NULL"@, Seq::empty(), i)]
            (self.holds)(column + " IS NULL"@, Seq::empty(), i) == ((self.value)(column, i) is None)
    }

    /// A placeholder stands for the number that is given for it.
    pub open spec fn reads_range(self, column: Seq<char>, lo: ArgModel, hi: ArgModel) -> bool {
        forall|i: int|
            #[trigger] self.lies_between(column, lo, hi, i) == (self.holds)(
                between_text(column, number_text(lo), number_text(hi)),
                Seq::empty(),
                i,
            )
    }
}

proof fn lemma_total_is_number(
    lib: Library,
    f: FilterModel,
    roots: Option<Seq<Seq<char>>>,
    sep: char,
    part: Seq<char>,
    args: Seq<ArgModel>,
)
    requires
        lib.reads_parts(roots, sep),
        adds(f, roots, sep, part, args),
    ensures
        lib.total(f, sep) == lib.number_with(roots, sep, part, args),
{
    let p = lib.shown_for(f, sep);
    let q = lib.with(roots, sep, part, args);
    assert forall|i: int| 0 <= i < lib.photos implies #[trigger] p(i) == q(i) by {
        let there = (lib.holds)(part, args, i);
    }
    lemma_how_many_same(lib.photos, p, q);
}

proof fn lemma_number_of_value(
    lib: Library,
    roots: Option<Seq<Seq<char>>>,
    sep: char,
    column: Seq<char>,
    x: ArgModel,
)
    requires
        lib.reads_values(column),
    ensures
        lib.number_with(roots, sep, column + " = ?"@, seq![x]) == lib.number_at(
            roots,
            sep,
            column,
            Some(x),
        ),
        lib.number_with(roots, sep, column + " IS NULL"@, Seq::empty()) == lib.number_at(
            roots,
            sep,
            column,
            None,
        ),
{
    let part = column + " = ?"@;
    let args = seq![x];
    let value = Some(x);
    let p = lib.with(roots, sep, part, args);
    let q = lib.at(roots, sep, column, value);
    assert forall|i: int| 0 <= i < lib.photos implies #[trigger] p(i) == q(i) by {
        let there = lib.meets(column, x, i);
    }
    lemma_how_many_same(lib.photos, p, q);
    lemma_number_of_none(lib, roots, sep, column);
}

proof fn lemma_number_of_none(
    lib: Library,
    roots: Option<Seq<Seq<char>>>,
    sep: char,
    column: Seq<char>,
)
    requires
        lib.reads_values(column),
    ensures
        lib.number_with(roots, sep, column + " IS NULL"@, Seq::empty()) == lib.number_at(
            roots,
            sep,
            column,
            None,
        ),
{
    let part = column + " IS NULL"@;
    let args = Seq::<ArgModel>::empty();
    let value: Option<ArgModel> = None;
    let p = lib.with(roots, sep, part, args);
    let q = lib.at(roots, sep, column, value);
    assert forall|i: int| 0 <= i < lib.photos implies #[trigger] p(i) == q(i) by {
        let there = (lib.holds)(column + " IS NULL"@, Seq::empty(), i);
    }
    lemma_how_many_same(lib.photos, p, q);
}

/// What grouping the photos in some directories by a column gives: each value once, and
/// how many photos have it.
pub open spec fn is_grouping(
    values: Seq<Option<ArgModel>>,
    counts: Seq<i64>,
    lib: Library,
    roots: Option<Seq<Seq<char>>>,
    sep: char,
    column: Seq<char>,
) -> bool {
    &&& counts.len() == values.len()
    &&& forall|k: int|
        0 <= k < values.len() ==> #[trigger] counts[k] == lib.number_at(
            roots,
            sep,
            column,
            values[k],
        )
    &&& forall|i: int|
        0 <= i < lib.photos && #[trigger] lib.is_in(roots, sep, i) ==> values.contains(
            (lib.value)(column, i),
        )
}

proof fn lemma_ungrouped_value(
    values: Seq<Option<ArgModel>>,
    counts: Seq<i64>,
    lib: Library,
    roots: Option<Seq<Seq<char>>>,
    sep: char,
    column: Seq<char>,
    x: Option<ArgModel>,
)
    requires
        is_grouping(values, counts, lib, roots, sep, column),
        !values.contains(x),
    ensures
        lib.number_at(roots, sep, column, x) == 0,
{
    let p = lib.at(roots, sep, column, x);
    assert forall|i: int| 0 <= i < lib.photos implies !#[trigger] p(i) by {
        let there = lib.is_in(roots, sep, i);
    }
    lemma_how_many_none(lib.photos, p);
}

/// The value that a key stands for: none for the key for photos without one.
pub open spec fn value_of_key(key: Seq<char>) -> Option<ArgModel> {
    if key == NONE_KEY@ {
        None
    } else {
        Some(ArgModel::Text(key))
    }
}

pub open spec fn star_values(rows: Seq<StarCount>) -> Seq<Option<ArgModel>> {
    rows.map_values(|x: StarCount| Some(ArgModel::Integer(x.stars)))
}

pub open spec fn named_values(rows: Seq<NamedCount>) -> Seq<Option<ArgModel>> {
    rows.map_values(|x: NamedCount| Some(ArgModel::Text(x.name@)))
}

pub open spec fn named_numbers(rows: Seq<NamedCount>) -> Seq<i64> {
    rows.map_values(|x: NamedCount| x.count)
}

/// What the queries give for some directories of a library.
pub open spec fn is_answer(
    rows: FacetRows,
    lib: Library,
    roots: Option<Seq<Seq<char>>>,
    sep: char,
) -> bool {
    let none = Seq::<ArgModel>::empty();
    &&& rows.total == lib.total(only_in(roots), sep)
    &&& rows.unmarked == lib.number_with(roots, sep, DECISION@ + " = 'none'"@, none)
    &&& rows.keep == lib.number_with(roots, sep, DECISION@ + " = 'keep'"@, none)
    &&& rows.reject == lib.number_with(roots, sep, DECISION@ + " = 'reject'"@, none)
    &&& rows.quality.a == lib.number_with(
        roots,
        sep,
        "p.sharpness IS NOT NULL AND p.sharpness < "@ + BLUR_THRESHOLD@,
        none,
    )
    &&& rows.quality.b == lib.number_with(
        roots,
        sep,
        "p.overexposed IS NOT NULL AND p.overexposed >= "@ + OVEREXPOSED_THRESHOLD@,
        none,
    )
    &&& rows.quality.c == lib.number_with(
        roots,
        sep,
        "p.underexposed IS NOT NULL AND p.underexposed >= "@ + UNDEREXPOSED_THRESHOLD@,
        none,
    )
    &&& rows.quality.d == lib.number_with(
        roots,
        sep,
        "p.eye_ratio IS NOT NULL AND p.eye_ratio < "@ + CLOSED_THRESHOLD@,
        none,
    )
    &&& is_grouping(
        star_values(rows.stars@),
        stars_counted(rows.stars@),
        lib,
        roots,
        sep,
        STARS@,
    )
    &&& is_grouping(
        named_values(rows.colors@),
        named_numbers(rows.colors@),
        lib,
        roots,
        sep,
        COLOR@,
    )
    &&& forall|k: int|
        0 <= k < rows.cameras@.len() ==> (#[trigger] rows.cameras@[k]).count == lib.number_at(
            roots,
            sep,
            "p.camera_serial"@,
            value_of_key(rows.cameras@[k].serial@),
        )
    &&& forall|k: int|
        0 <= k < rows.lenses@.len() ==> (#[trigger] rows.lenses@[k]).count == lib.number_at(
            roots,
            sep,
            "p.lens"@,
            value_of_key(rows.lenses@[k].name@),
        )
    &&& forall|k: int|
        0 <= k < rows.days@.len() ==> (#[trigger] rows.days@[k]).count == lib.number_at(
            roots,
            sep,
            day_column(),
            Some(ArgModel::Text(rows.days@[k].name@)),
        )
    &&& rows.undated == lib.number_at(roots, sep, day_column(), None)
    &&& rows.focals matches Some(n) ==> {
        let column = "p.focal_len"@;
        &&& n.a == lib.number_with(roots, sep, between_text(column, "0"@, "24"@), none)
        &&& n.b == lib.number_with(roots, sep, between_text(column, "24"@, "70"@), none)
        &&& n.c == lib.number_with(roots, sep, between_text(column, "70"@, "200"@), none)
        &&& n.d == lib.number_with(roots, sep, between_text(column, "200"@, LARGEST_REAL@), none)
    }
    &&& rows.isos matches Some(n) ==> {
        let column = "p.iso"@;
        &&& n.a == lib.number_with(roots, sep, between_text(column, "0"@, "400"@), none)
        &&& n.b == lib.number_with(roots, sep, between_text(column, "400"@, "1600"@), none)
        &&& n.c == lib.number_with(roots, sep, between_text(column, "1600"@, "6400"@), none)
        &&& n.d == lib.number_with(roots, sep, between_text(column, "6400"@, LARGEST_REAL@), none)
    }
}

/// The count of all photos is the number that the grid shows without a choice, and the
/// count for each decision is the number that it shows for that decision.
pub proof fn law_decision_counts_are_totals(
    r: LibraryFacets,
    rows: FacetRows,
    lib: Library,
    roots: Option<Seq<Seq<char>>>,
    sep: char,
    k: int,
)
    requires
        is_facets_of(r, rows),
        is_answer(rows, lib, roots, sep),
        lib.reads_parts(roots, sep),
        1 <= k < facets_view(r.decisions@).len(),
    ensures
        r.total == lib.total(only_in(roots), sep),
        facets_view(r.decisions@)[k].count == lib.total(
            FilterModel { decision: Some(facets_view(r.decisions@)[k].key), ..only_in(roots) },
            sep,
        ),
{
    law_counted_decisions_are_the_filtered_ones(roots, sep);
    let none = Seq::<ArgModel>::empty();
    lemma_total_is_number(
        lib,
        FilterModel { decision: Some("none"@), ..only_in(roots) },
        roots,
        sep,
        DECISION@ + " = 'none'"@,
        none,
    );
    lemma_total_is_number(
        lib,
        FilterModel { decision: Some("keep"@), ..only_in(roots) },
        roots,
        sep,
        DECISION@ + " = 'keep'"@,
        none,
    );
    lemma_total_is_number(
        lib,
        FilterModel { decision: Some("reject"@), ..only_in(roots) },
        roots,
        sep,
        DECISION@ + " = 'reject'"@,
        none,
    );
}

/// The count for each flaw is the number of photos that the grid shows for it.
pub proof fn law_flaw_counts_are_totals(
    r: LibraryFacets,
    rows: FacetRows,
    lib: Library,
    roots: Option<Seq<Seq<char>>>,
    sep: char,
    k: int,
)
    requires
        is_facets_of(r, rows),
        is_answer(rows, lib, roots, sep),
        lib.reads_parts(roots, sep),
        0 <= k < facets_view(r.quality@).len(),
    ensures
        facets_view(r.quality@)[k].count == lib.total(
            FilterModel { quality: Some(facets_view(r.quality@)[k].key), ..only_in(roots) },
            sep,
        ),
{
    law_counted_flaws_are_the_filtered_ones(roots, sep);
    let none = Seq::<ArgModel>::empty();
    lemma_total_is_number(
        lib,
        FilterModel { quality: Some("blur"@), ..only_in(roots) },
        roots,
        sep,
        "p.sharpness IS NOT NULL AND p.sharpness < "@ + BLUR_THRESHOLD@,
        none,
    );
    lemma_total_is_number(
        lib,
        FilterModel { quality: Some("over"@), ..only_in(roots) },
        roots,
        sep,
        "p.overexposed IS NOT NULL AND p.overexposed >= "@ + OVEREXPOSED_THRESHOLD@,
        none,
    );
    lemma_total_is_number(
        lib,
        FilterModel { quality: Some("under"@), ..only_in(roots) },
        roots,
        sep,
        "p.underexposed IS NOT NULL AND p.underexposed >= "@ + UNDEREXPOSED_THRESHOLD@,
        none,
    );
    lemma_total_is_number(
        lib,
        FilterModel { quality: Some("blink"@), ..only_in(roots) },
        roots,
        sep,
        "p.eye_ratio IS NOT NULL AND p.eye_ratio < "@ + CLOSED_THRESHOLD@,
        none,
    );
}

proof fn lemma_star_count_is_number(
    rows: Seq<StarCount>,
    lib: Library,
    roots: Option<Seq<Seq<char>>>,
    sep: char,
    stars: i64,
)
    requires
        0 <= stars <= 5,
        forall|i: int| 0 <= i < rows.len() ==> 0 <= (#[trigger] rows[i]).stars <= 5,
        forall|i: int|
            0 <= i < rows.len() ==> (#[trigger] rows[i]).count == lib.number_at(
                roots,
                sep,
                STARS@,
                Some(ArgModel::Integer(rows[i].stars)),
            ),
        lib.number_at(roots, sep, STARS@, Some(ArgModel::Integer(stars))) > 0 ==> exists|i: int|
            0 <= i < rows.len() && (#[trigger] rows[i]).stars == stars,
    ensures
        star_count(rows, stars as int) == lib.number_at(
            roots,
            sep,
            STARS@,
            Some(ArgModel::Integer(stars)),
        ),
    decreases rows.len(),
{
    if rows.len() > 0 {
        let last = rows[rows.len() - 1];
        if last.stars != stars {
            let front = rows.drop_last();
            assert forall|i: int| 0 <= i < front.len() implies (#[trigger] front[i]) == rows[i] by {}
            if lib.number_at(roots, sep, STARS@, Some(ArgModel::Integer(stars))) > 0 {
                let i = choose|i: int| 0 <= i < rows.len() && (#[trigger] rows[i]).stars == stars;
                assert(front[i].stars == stars);
            }
            lemma_star_count_is_number(front, lib, roots, sep, stars);
        }
    }
}

/// The count for each number of stars is the number of photos that the grid shows for
/// it.
pub proof fn law_star_counts_are_totals(
    r: LibraryFacets,
    rows: FacetRows,
    lib: Library,
    roots: Option<Seq<Seq<char>>>,
    sep: char,
    stars: i64,
)
    requires
        is_facets_of(r, rows),
        is_answer(rows, lib, roots, sep),
        lib.reads_parts(roots, sep),
        lib.reads_values(STARS@),
        forall|i: int|
            0 <= i < rows.stars@.len() ==> 0 <= (#[trigger] rows.stars@[i]).stars <= 5,
        0 <= stars <= 5,
    ensures
        facets_view(r.stars@)[stars as int].count == lib.total(
            FilterModel { stars: Some(stars), ..only_in(roots) },
            sep,
        ),
{
    let x = ArgModel::Integer(stars);
    let all = rows.stars@;
    law_counted_stars_are_the_filtered_ones(roots, sep, stars);
    lemma_total_is_number(
        lib,
        FilterModel { stars: Some(stars), ..only_in(roots) },
        roots,
        sep,
        STARS@ + " = ?"@,
        seq![x],
    );
    lemma_number_of_value(lib, roots, sep, STARS@, x);
    assert forall|i: int| 0 <= i < all.len() implies (#[trigger] all[i]).count == lib.number_at(
        roots,
        sep,
        STARS@,
        Some(ArgModel::Integer(all[i].stars)),
    ) by {
        assert(stars_counted(all)[i] == lib.number_at(roots, sep, STARS@, star_values(all)[i]));
    }
    if star_values(all).contains(Some(x)) {
        let i = choose|i: int| 0 <= i < star_values(all).len() && star_values(all)[i] == Some(x);
        assert(all[i].stars == stars);
    } else {
        lemma_ungrouped_value(
            star_values(all),
            stars_counted(all),
            lib,
            roots,
            sep,
            STARS@,
            Some(x),
        );
    }
    lemma_star_count_is_number(all, lib, roots, sep, stars);
}

proof fn lemma_named_count_is_number(
    rows: Seq<NamedCount>,
    lib: Library,
    roots: Option<Seq<Seq<char>>>,
    sep: char,
    column: Seq<char>,
    name: Seq<char>,
)
    requires
        forall|i: int|
            0 <= i < rows.len() ==> (#[trigger] rows[i]).count == lib.number_at(
                roots,
                sep,
                column,
                Some(ArgModel::Text(rows[i].name@)),
            ),
        lib.number_at(roots, sep, column, Some(ArgModel::Text(name))) > 0 ==> exists|i: int|
            0 <= i < rows.len() && (#[trigger] rows[i]).name@ == name,
    ensures
        named_count(rows, name) == lib.number_at(roots, sep, column, Some(ArgModel::Text(name))),
    decreases rows.len(),
{
    if rows.len() > 0 {
        let last = rows[rows.len() - 1];
        if last.name@ != name {
            let front = rows.drop_last();
            assert forall|i: int| 0 <= i < front.len() implies (#[trigger] front[i]) == rows[i] by {}
            if lib.number_at(roots, sep, column, Some(ArgModel::Text(name))) > 0 {
                let i = choose|i: int| 0 <= i < rows.len() && (#[trigger] rows[i]).name@ == name;
                assert(front[i].name@ == name);
            }
            lemma_named_count_is_number(front, lib, roots, sep, column, name);
        }
    }
}

/// The count for each colour is the number of photos that the grid shows for it.
pub proof fn law_color_counts_are_totals(
    r: LibraryFacets,
    rows: FacetRows,
    lib: Library,
    roots: Option<Seq<Seq<char>>>,
    sep: char,
    k: int,
)
    requires
        is_facets_of(r, rows),
        is_answer(rows, lib, roots, sep),
        lib.reads_parts(roots, sep),
        lib.reads_values(COLOR@),
        0 <= k < facets_view(r.colors@).len(),
    ensures
        facets_view(r.colors@)[k].count == lib.total(
            FilterModel { color: Some(facets_view(r.colors@)[k].key), ..only_in(roots) },
            sep,
        ),
{
    let key = facets_view(r.colors@)[k].key;
    let all = rows.colors@;
    let x = ArgModel::Text(key);
    assert(is_color(key));
    assert(facets_view(r.colors@)[k].count == named_count(all, key));
    law_counted_colors_are_the_filtered_ones(roots, sep, key);
    lemma_total_is_number(
        lib,
        FilterModel { color: Some(key), ..only_in(roots) },
        roots,
        sep,
        COLOR@ + " = ?"@,
        seq![x],
    );
    lemma_number_of_value(lib, roots, sep, COLOR@, x);
    assert forall|i: int| 0 <= i < all.len() implies (#[trigger] all[i]).count == lib.number_at(
        roots,
        sep,
        COLOR@,
        Some(ArgModel::Text(all[i].name@)),
    ) by {
        assert(named_numbers(all)[i] == lib.number_at(roots, sep, COLOR@, named_values(all)[i]));
    }
    if named_values(all).contains(Some(x)) {
        let i = choose|i: int| 0 <= i < named_values(all).len() && named_values(all)[i] == Some(x);
        assert(all[i].name@ == key);
    } else {
        lemma_ungrouped_value(
            named_values(all),
            named_numbers(all),
            lib,
            roots,
            sep,
            COLOR@,
            Some(x),
        );
    }
    lemma_named_count_is_number(all, lib, roots, sep, COLOR@, key);
}

proof fn lemma_value_total(
    lib: Library,
    f: FilterModel,
    roots: Option<Seq<Seq<char>>>,
    sep: char,
    column: Seq<char>,
    key: Seq<char>,
)
    requires
        lib.reads_parts(roots, sep),
        lib.reads_values(column),
        adds(f, roots, sep, value_part(column, key), value_args(key)),
    ensures
        lib.total(f, sep) == lib.number_at(roots, sep, column, value_of_key(key)),
{
    lemma_total_is_number(lib, f, roots, sep, value_part(column, key), value_args(key));
    lemma_number_of_value(lib, roots, sep, column, ArgModel::Text(key));
}

/// The count for each camera, each lens and each day is the number of photos that the
/// grid shows for it, those without a value under their own key.
pub proof fn law_value_counts_are_totals(
    r: LibraryFacets,
    rows: FacetRows,
    lib: Library,
    roots: Option<Seq<Seq<char>>>,
    sep: char,
    k: int,
)
    requires
        is_facets_of(r, rows),
        is_answer(rows, lib, roots, sep),
        lib.reads_parts(roots, sep),
        lib.reads_values("p.camera_serial"@),
        lib.reads_values("p.lens"@),
        lib.reads_values(day_column()),
        forall|i: int| 0 <= i < rows.days@.len() ==> (#[trigger] rows.days@[i]).name@ != NONE_KEY@,
    ensures
        0 <= k < r.cameras@.len() && facets_view(r.cameras@)[k].key.len() > 0 ==> facets_view(
            r.cameras@,
        )[k].count == lib.total(
            FilterModel { camera_serial: Some(facets_view(r.cameras@)[k].key), ..only_in(roots) },
            sep,
        ),
        0 <= k < r.lenses@.len() && facets_view(r.lenses@)[k].key.len() > 0 ==> facets_view(
            r.lenses@,
        )[k].count == lib.total(
            FilterModel { lens: Some(facets_view(r.lenses@)[k].key), ..only_in(roots) },
            sep,
        ),
        0 <= k < r.days@.len() && facets_view(r.days@)[k].key.len() > 0 ==> facets_view(
            r.days@,
        )[k].count == lib.total(
            FilterModel { day: Some(facets_view(r.days@)[k].key), ..only_in(roots) },
            sep,
        ),
{
    let cameras = facets_view(r.cameras@);
    let lenses = facets_view(r.lenses@);
    let days = facets_view(r.days@);
    assert(cameras.len() == r.cameras@.len() && lenses.len() == r.lenses@.len() && days.len()
        == r.days@.len());
    if 0 <= k < cameras.len() && cameras[k].key.len() > 0 {
        let key = cameras[k].key;
        assert(key == rows.cameras@[k].serial@);
        law_counted_values_are_the_filtered_ones(roots, sep, key);
        let f = FilterModel { camera_serial: Some(key), ..only_in(roots) };
        lemma_value_total(lib, f, roots, sep, "p.camera_serial"@, key);
    }
    if 0 <= k < lenses.len() && lenses[k].key.len() > 0 {
        let key = lenses[k].key;
        assert(key == rows.lenses@[k].name@);
        law_counted_values_are_the_filtered_ones(roots, sep, key);
        let f = FilterModel { lens: Some(key), ..only_in(roots) };
        lemma_value_total(lib, f, roots, sep, "p.lens"@, key);
    }
    if 0 <= k < days.len() && days[k].key.len() > 0 {
        let key = days[k].key;
        law_counted_values_are_the_filtered_ones(roots, sep, key);
        let f = FilterModel { day: Some(key), ..only_in(roots) };
        lemma_value_total(lib, f, roots, sep, day_column(), key);
        if k < rows.days@.len() {
            assert(key == rows.days@[k].name@);
        } else {
            assert(key == NONE_KEY@);
        }
    }
}

proof fn lemma_range_total(
    lib: Library,
    f: FilterModel,
    roots: Option<Seq<Seq<char>>>,
    sep: char,
    column: Seq<char>,
    lo: ArgModel,
    hi: ArgModel,
    condition: Seq<char>,
)
    requires
        lib.reads_parts(roots, sep),
        lib.reads_range(column, lo, hi),
        adds_range(f, roots, sep, column, lo, hi, condition),
    ensures
        lib.total(f, sep) == lib.number_with(roots, sep, condition, Seq::empty()),
{
    let part = between_text(column, "?"@, "?"@);
    lemma_total_is_number(lib, f, roots, sep, part, seq![lo, hi]);
    let p = lib.with(roots, sep, part, seq![lo, hi]);
    let q = lib.with(roots, sep, condition, Seq::empty());
    assert forall|i: int| 0 <= i < lib.photos implies #[trigger] p(i) == q(i) by {
        let there = lib.lies_between(column, lo, hi, i);
    }
    lemma_how_many_same(lib.photos, p, q);
}

/// The count for each range of focal lengths is the number of photos that the grid
/// shows for it.
pub proof fn law_focal_counts_are_totals(
    r: LibraryFacets,
    rows: FacetRows,
    lib: Library,
    roots: Option<Seq<Seq<char>>>,
    sep: char,
    k: int,
)
    requires
        is_facets_of(r, rows),
        is_answer(rows, lib, roots, sep),
        lib.reads_parts(roots, sep),
        lib.reads_range("p.focal_len"@, ArgModel::Real(0), ArgModel::Real(24)),
        lib.reads_range("p.focal_len"@, ArgModel::Real(24), ArgModel::Real(70)),
        lib.reads_range("p.focal_len"@, ArgModel::Real(70), ArgModel::Real(200)),
        lib.reads_range("p.focal_len"@, ArgModel::Real(200), ArgModel::RealMax),
        0 <= k < facets_view(r.focals@).len(),
    ensures
        facets_view(r.focals@)[k].count == lib.total(
            FilterModel { focal: Some(facets_view(r.focals@)[k].key), ..only_in(roots) },
            sep,
        ),
{
    law_counted_focal_lengths_are_the_filtered_ones(roots, sep);
    let column = "p.focal_len"@;
    lemma_range_total(
        lib,
        FilterModel { focal: Some("wide"@), ..only_in(roots) },
        roots,
        sep,
        column,
        ArgModel::Real(0),
        ArgModel::Real(24),
        between_text(column, "0"@, "24"@),
    );
    lemma_range_total(
        lib,
        FilterModel { focal: Some("normal"@), ..only_in(roots) },
        roots,
        sep,
        column,
        ArgModel::Real(24),
        ArgModel::Real(70),
        between_text(column, "24"@, "70"@),
    );
    lemma_range_total(
        lib,
        FilterModel { focal: Some("tele"@), ..only_in(roots) },
        roots,
        sep,
        column,
        ArgModel::Real(70),
        ArgModel::Real(200),
        between_text(column, "70"@, "200"@),
    );
    lemma_range_total(
        lib,
        FilterModel { focal: Some("super"@), ..only_in(roots) },
        roots,
        sep,
        column,
        ArgModel::Real(200),
        ArgModel::RealMax,
        between_text(column, "200"@, LARGEST_REAL@),
    );
    assert(rows.focals is Some);
}

/// No photo has a sensitivity as large as the largest integer, so that it makes no
/// difference whether the last range ends there.
pub open spec fn has_no_largest_iso(lib: Library) -> bool {
    forall|i: int|
        #[trigger] lib.lies_between(
            "p.iso"@,
            ArgModel::Integer(6400),
            ArgModel::Integer(i64::MAX),
            i,
        ) == (lib.holds)(between_text("p.iso"@, "6400"@, LARGEST_REAL@), Seq::empty(), i)
}

/// The count for each range of sensitivities is the number of photos that the grid
/// shows for it.
pub proof fn law_iso_counts_are_totals(
    r: LibraryFacets,
    rows: FacetRows,
    lib: Library,
    roots: Option<Seq<Seq<char>>>,
    sep: char,
    k: int,
)
    requires
        is_facets_of(r, rows),
        is_answer(rows, lib, roots, sep),
        lib.reads_parts(roots, sep),
        lib.reads_range("p.iso"@, ArgModel::Integer(0), ArgModel::Integer(400)),
        lib.reads_range("p.iso"@, ArgModel::Integer(400), ArgModel::Integer(1600)),
        lib.reads_range("p.iso"@, ArgModel::Integer(1600), ArgModel::Integer(6400)),
        has_no_largest_iso(lib),
        0 <= k < facets_view(r.isos@).len(),
    ensures
        facets_view(r.isos@)[k].count == lib.total(
            FilterModel { iso: Some(facets_view(r.isos@)[k].key), ..only_in(roots) },
            sep,
        ),
{
    law_counted_sensitivities_are_the_filtered_ones(roots, sep);
    let column = "p.iso"@;
    lemma_range_total(
        lib,
        FilterModel { iso: Some("low"@), ..only_in(roots) },
        roots,
        sep,
        column,
        ArgModel::Integer(0),
        ArgModel::Integer(400),
        between_text(column, "0"@, "400"@),
    );
    lemma_range_total(
        lib,
        FilterModel { iso: Some("mid"@), ..only_in(roots) },
        roots,
        sep,
        column,
        ArgModel::Integer(400),
        ArgModel::Integer(1600),
        between_text(column, "400"@, "1600"@),
    );
    lemma_range_total(
        lib,
        FilterModel { iso: Some("high"@), ..only_in(roots) },
        roots,
        sep,
        column,
        ArgModel::Integer(1600),
        ArgModel::Integer(6400),
        between_text(column, "1600"@, "6400"@),
    );
    let part = between_text(column, "?"@, "?"@);
    let ends = seq![ArgModel::Integer(6400), ArgModel::Integer(i64::MAX)];
    let open = between_text(column, "6400"@, LARGEST_REAL@);
    lemma_total_is_number(
        lib,
        FilterModel { iso: Some("veryHigh"@), ..only_in(roots) },
        roots,
        sep,
        part,
        ends,
    );
    let p = lib.with(roots, sep, part, ends);
    let q = lib.with(roots, sep, open, Seq::empty());
    assert forall|i: int| 0 <= i < lib.photos implies #[trigger] p(i) == q(i) by {
        let there = lib.lies_between(
            column,
            ArgModel::Integer(6400),
            ArgModel::Integer(i64::MAX),
            i,
        );
    }
    lemma_how_many_same(lib.photos, p, q);
    assert(rows.isos is Some);
}

impl Library {
    /// Brackets around a condition change nothing.
    pub open spec fn reads_brackets(self, condition: Seq<char>) -> bool {
        forall|i: int|
            #[trigger] self.is_bracketed(condition, i) == (self.holds)(condition, Seq::empty(), i)
    }

    pub open spec fn is_bracketed(self, condition: Seq<char>, i: int) -> bool {
        (self.holds)("("@ + condition + ")"@, Seq::empty(), i)
    }
}

proof fn lemma_bracketed_total(
    lib: Library,
    f: FilterModel,
    roots: Option<Seq<Seq<char>>>,
    sep: char,
    condition: Seq<char>,
)
    requires
        lib.reads_parts(roots, sep),
        lib.reads_brackets(condition),
        adds(f, roots, sep, "("@ + condition + ")"@, Seq::empty()),
    ensures
        lib.total(f, sep) == lib.number_with(roots, sep, condition, Seq::empty()),
{
    let part = "("@ + condition + ")"@;
    let none = Seq::<ArgModel>::empty();
    lemma_total_is_number(lib, f, roots, sep, part, none);
    let p = lib.with(roots, sep, part, none);
    let q = lib.with(roots, sep, condition, none);
    assert forall|i: int| 0 <= i < lib.photos implies #[trigger] p(i) == q(i) by {
        let there = lib.is_bracketed(condition, i);
    }
    lemma_how_many_same(lib.photos, p, q);
}

/// The conditions that tell which files a pair has.
pub open spec fn has_both() -> Seq<char> {
    HAS_RAW@ + " AND "@ + HAS_JPG@
}

pub open spec fn has_raw_only() -> Seq<char> {
    HAS_RAW@ + " AND NOT "@ + HAS_JPG@
}

pub open spec fn has_jpg_only() -> Seq<char> {
    "NOT "@ + HAS_RAW@ + " AND "@ + HAS_JPG@
}

/// The counts for the files of a pair are the numbers of photos that the grid shows for
/// them.
pub proof fn law_pair_counts_are_totals(
    r: LibraryFacets,
    rows: FacetRows,
    lib: Library,
    roots: Option<Seq<Seq<char>>>,
    sep: char,
    k: int,
)
    requires
        is_facets_of(r, rows),
        lib.reads_parts(roots, sep),
        lib.reads_brackets(has_both()),
        lib.reads_brackets(has_raw_only()),
        lib.reads_brackets(has_jpg_only()),
        rows.both == lib.number_with(roots, sep, has_both(), Seq::empty()),
        rows.raw_only == lib.number_with(roots, sep, has_raw_only(), Seq::empty()),
        rows.jpg_only == lib.number_with(roots, sep, has_jpg_only(), Seq::empty()),
        1 <= k <= 3,
    ensures
        facets_view(r.pair_states@)[k].count == lib.total(
            FilterModel { pair_state: Some(facets_view(r.pair_states@)[k].key), ..only_in(roots) },
            sep,
        ),
{
    law_counted_pairs_are_the_filtered_ones(roots, sep);
    lemma_bracketed_total(
        lib,
        FilterModel { pair_state: Some("both"@), ..only_in(roots) },
        roots,
        sep,
        has_both(),
    );
    lemma_bracketed_total(
        lib,
        FilterModel { pair_state: Some("rawOnly"@), ..only_in(roots) },
        roots,
        sep,
        has_raw_only(),
    );
    lemma_bracketed_total(
        lib,
        FilterModel { pair_state: Some("jpgOnly"@), ..only_in(roots) },
        roots,
        sep,
        has_jpg_only(),
    );
}

/// The progress counts the photos that were looked at, which have a decision or stars, and
/// among them those that are kept, by the condition that the filter for kept photos adds.
/// Both are taken over as the database gives them.
pub proof fn law_progress_counts_what_was_looked_at(
    r: LibraryFacets,
    rows: FacetRows,
    roots: Option<Seq<Seq<char>>>,
    sep: char,
)
    requires
        is_facets_of(r, rows),
    ensures
        progress_text(scope_for(roots, sep)) == "SELECT "@ + counted(
            DECISION@ + " IN ('keep', 'reject') OR "@ + STARS@ + " > 0"@,
        ) + ", "@ + counted(DECISION@ + " = 'keep'"@) + " "@ + FROM_PHOTOS@ + primary_in(
            scope_for(roots, sep),
        ),
        adds(
            FilterModel { decision: Some("keep"@), ..only_in(roots) },
            roots,
            sep,
            DECISION@ + " = 'keep'"@,
            Seq::empty(),
        ),
        r.processed == rows.processed,
        r.kept == rows.kept,
        r.days_truncated <==> rows.distinct_days > 400,
{
    law_counted_decisions_are_the_filtered_ones(roots, sep);
}

/// A search looks at the paths of photos, a list of photos at their numbers, the filter
/// for photos that were looked at at their decisions, and the filter for single files at
/// the RAW and JPEG files with the same key.
pub proof fn law_requests_ask_what_they_name(
    roots: Option<Seq<Seq<char>>>,
    sep: char,
    search: Seq<char>,
    ids: Seq<i64>,
)
    requires
        trimmed(search).len() > 0,
        ids.len() > 0,
    ensures
        adds(
            FilterModel { search: Some(search), ..only_in(roots) },
            roots,
            sep,
            "p.path"@ + " LIKE ? ESCAPE '\\'"@,
            seq![ArgModel::Text(search_pattern(trimmed(search)))],
        ),
        adds(
            FilterModel { decision: Some("marked"@), ..only_in(roots) },
            roots,
            sep,
            "COALESCE(d.decision, 'none')"@ + " <> 'none'"@,
            Seq::empty(),
        ),
        adds(
            FilterModel { pair_state: Some("orphan"@), ..only_in(roots) },
            roots,
            sep,
            "NOT ("@
                + "EXISTS(SELECT 1 FROM photos a WHERE a.pair_key = p.pair_key AND a.file_kind = 'raw')"@
                + " AND "@
                + "EXISTS(SELECT 1 FROM photos b WHERE b.pair_key = p.pair_key AND b.file_kind = 'jpeg')"@
                + ")"@,
            Seq::empty(),
        ),
        ({
            let c = conditions(FilterModel { ids: Some(ids), ..only_in(None) }, sep);
            &&& c.parts == seq![
                "p.is_primary = 1"@,
                "p.id IN ("@ + joined(Seq::new(ids.len(), |i: int| "?"@), ","@) + ")"@,
            ]
            &&& c.args.len() == ids.len()
            &&& forall|i: int|
                0 <= i < ids.len() ==> #[trigger] c.args[i] == ArgModel::Integer(ids[i])
        }),
{
    reveal_strlit("p.path");
    reveal_strlit(" LIKE ? ESCAPE '\\'");
    reveal_strlit("p.path LIKE ? ESCAPE '\\'");
    reveal_strlit("marked");
    reveal_strlit("none");
    reveal_strlit("keep");
    reveal_strlit("reject");
    assert("marked"@[0] != "keep"@[0] && "marked"@[0] != "none"@[0] && "marked"@[0]
        != "reject"@[0]);
    assert("p.path"@ + " LIKE ? ESCAPE '\\'"@ =~= "p.path LIKE ? ESCAPE '\\'"@);
    lemma_adds(
        FilterModel { search: Some(search), ..only_in(roots) },
        roots,
        sep,
        "p.path"@ + " LIKE ? ESCAPE '\\'"@,
        seq![ArgModel::Text(search_pattern(trimmed(search)))],
    );
    lemma_adds(
        FilterModel { decision: Some("marked"@), ..only_in(roots) },
        roots,
        sep,
        DECISION@ + " <> 'none'"@,
        Seq::empty(),
    );
    reveal_strlit("orphan");
    reveal_strlit("both");
    reveal_strlit("rawOnly");
    reveal_strlit("jpgOnly");
    assert("orphan"@[0] != "both"@[0] && "orphan"@[0] != "rawOnly"@[0] && "orphan"@[0]
        != "jpgOnly"@[0]);
    lemma_adds(
        FilterModel { pair_state: Some("orphan"@), ..only_in(roots) },
        roots,
        sep,
        "NOT ("@ + HAS_RAW@ + " AND "@ + HAS_JPG@ + ")"@,
        Seq::empty(),
    );
    let c = conditions(FilterModel { ids: Some(ids), ..only_in(None) }, sep);
    assert(c.parts =~= seq![
        "p.is_primary = 1"@,
        "p.id IN ("@ + joined(Seq::new(ids.len(), |i: int| "?"@), ","@) + ")"@,
    ]);
}

/// A photo has a flaw from a fixed value on: a sharpness below 25, two in a hundred
/// pixels blown out, a quarter of all pixels black, or eyes less than 0.21 times as high as
/// wide.
pub proof fn law_flaws_have_fixed_bounds(roots: Option<Seq<Seq<char>>>, sep: char)
    ensures
        adds(
            FilterModel { quality: Some("blur"@), ..only_in(roots) },
            roots,
            sep,
            "p.sharpness IS NOT NULL AND p.sharpness < "@ + "25"@,
            Seq::empty(),
        ),
        adds(
            FilterModel { quality: Some("over"@), ..only_in(roots) },
            roots,
            sep,
            "p.overexposed IS NOT NULL AND p.overexposed >= "@ + "0.02"@,
            Seq::empty(),
        ),
        adds(
            FilterModel { quality: Some("under"@), ..only_in(roots) },
            roots,
            sep,
            "p.underexposed IS NOT NULL AND p.underexposed >= "@ + "0.25"@,
            Seq::empty(),
        ),
        adds(
            FilterModel { quality: Some("blink"@), ..only_in(roots) },
            roots,
            sep,
            "p.eye_ratio IS NOT NULL AND p.eye_ratio < "@ + "0.21"@,
            Seq::empty(),
        ),
{
    law_counted_flaws_are_the_filtered_ones(roots, sep);
}

proof fn lemma_doubled(p: Seq<Seq<char>>, k: int)
    requires
        0 <= k < p.len(),
    ensures
        doubled(p).len() == 2 * p.len(),
        doubled(p)[2 * k] == ArgModel::Text(p[k]),
        doubled(p)[2 * k + 1] == ArgModel::Text(p[k]),
    decreases p.len(),
{
    let r = p.drop_last();
    if r.len() > 0 {
        lemma_doubled(r, if k < r.len() {
            k
        } else {
            0
        });
    } else {
        assert(doubled(r).len() == 0);
    }
}

proof fn lemma_prefixes(roots: Seq<Seq<char>>, sep: char)
    requires
        forall|i: int| 0 <= i < roots.len() ==> trim_seps(#[trigger] roots[i]).len() > 0,
    ensures
        prefixes_in(Some(roots), sep).len() == roots.len(),
        forall|i: int|
            0 <= i < roots.len() ==> #[trigger] prefixes_in(Some(roots), sep)[i] == trim_seps(
                roots[i],
            ).push(sep),
    decreases roots.len(),
{
    if roots.len() > 0 {
        let r = roots.drop_last();
        assert forall|i: int| 0 <= i < r.len() implies trim_seps(#[trigger] r[i]).len() > 0 by {
            assert(r[i] == roots[i]);
        }
        lemma_prefixes(r, sep);
        let a = prefixes_in(Some(r), sep);
        let b = prefixes_in(Some(roots), sep);
        assert(b == a.push(trim_seps(roots.last()).push(sep)));
        assert forall|i: int| 0 <= i < roots.len() implies #[trigger] b[i] == trim_seps(
            roots[i],
        ).push(sep) by {
            if i < r.len() {
                assert(b[i] == a[i]);
                assert(r[i] == roots[i]);
            }
        }
    }
}

/// A view of some directories asks of each, in their order, whether a path starts with
/// it: its name and a separator are handed over for the length and for the comparison.
pub proof fn law_directories_are_asked_for_in_order(roots: Seq<Seq<char>>, sep: char, k: int)
    requires
        forall|i: int| 0 <= i < roots.len() ==> trim_seps(#[trigger] roots[i]).len() > 0,
        0 <= k < roots.len(),
    ensures
        ({
            let c = conditions(only_in(Some(roots)), sep);
            &&& c.args.len() == 2 * roots.len()
            &&& c.args[2 * k] == ArgModel::Text(trim_seps(roots[k]).push(sep))
            &&& c.args[2 * k + 1] == ArgModel::Text(trim_seps(roots[k]).push(sep))
            &&& c.parts == seq![
                "p.is_primary = 1"@,
                "("@ + joined(
                    Seq::new(roots.len(), |i: int| "substr(p.path, 1, length(?)) = ?"@),
                    " OR "@,
                ) + ")"@,
            ]
        }),
{
    lemma_scope_only(Some(roots), sep);
    lemma_prefixes(roots, sep);
    lemma_doubled(prefixes_in(Some(roots), sep), k);
    let c = conditions(only_in(Some(roots)), sep);
    assert(c.parts =~= seq![
        "p.is_primary = 1"@,
        "("@ + joined(
            Seq::new(roots.len(), |i: int| "substr(p.path, 1, length(?)) = ?"@),
            " OR "@,
        ) + ")"@,
    ]);
}

} // verus!
