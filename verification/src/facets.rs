//! The counts beside the filters: how many photos each choice would give.
//!
//! The counts are taken over the same directories as the grid, so that the two
//! agree. Choices with a fixed set of values are always listed in full and in the
//! same place, also where a count is zero.
use vstd::prelude::*;

use crate::filter::{
    args_view,
    clamp_stars,
    doubled,
    prefixes_in,
    roots_view,
    scope_suffix,
    scope_where,
    stars_in_range,
    SqlArg,
    BLUR_THRESHOLD,
    CLOSED_THRESHOLD,
    COLOR,
    DAY_KEY,
    DECISION,
    FROM_PHOTOS,
    HAS_JPG,
    HAS_RAW,
    NONE_KEY,
    OVEREXPOSED_THRESHOLD,
    STARS,
    UNDEREXPOSED_THRESHOLD,
};
use crate::text::{cat, cat3, dec, decimal, same};

verus! {

/// At most this many days are listed, the latest ones.
pub const DAY_FACET_LIMIT: i64 = 400;

/// One choice of a filter: its key, what is shown for it, and its count.
#[derive(Debug, Clone)]
pub struct Facet {
    pub key: String,
    pub label: String,
    pub count: i64,
}

/// What a `Facet` holds.
pub struct FacetModel {
    pub key: Seq<char>,
    pub label: Seq<char>,
    pub count: i64,
}

impl View for Facet {
    type V = FacetModel;

    open spec fn view(&self) -> FacetModel {
        FacetModel { key: self.key@, label: self.label@, count: self.count }
    }
}

pub open spec fn facets_view(f: Seq<Facet>) -> Seq<FacetModel> {
    f.map_values(|x: Facet| x@)
}

pub open spec fn facet(key: Seq<char>, label: Seq<char>, count: i64) -> FacetModel {
    FacetModel { key, label, count }
}

fn push_facet(out: &mut Vec<Facet>, key: &str, label: &str, count: i64)
    ensures
        facets_view(final(out)@) == facets_view(old(out)@).push(facet(key@, label@, count)),
{
    let f = Facet { key: key.to_string(), label: label.to_string(), count };
    out.push(f);
    assert(facets_view(out@) =~= facets_view(old(out)@).push(f@));
}

fn no_facets() -> (r: Vec<Facet>)
    ensures
        facets_view(r@) == Seq::<FacetModel>::empty(),
{
    let v: Vec<Facet> = Vec::new();
    assert(facets_view(v@) =~= Seq::<FacetModel>::empty());
    v
}

// ---------------------------------------------------------------------------
// The queries
// ---------------------------------------------------------------------------

/// The bounds of a range as they stand in a query; the last is the largest
/// floating-point number.
pub const LARGEST_REAL: &'static str = "179769313486231570000000000000000000000000000000000000000000000000000000000000000000000000000000000000000000000000000000000000000000000000000000000000000000000000000000000000000000000000000000000000000000000000000000000000000000000000000000000000000000000000000000000000000000000000000000000000000000000000000";

/// The condition that all counts share; `scope` limits it to directories.
pub open spec fn primary_in(scope: Seq<char>) -> Seq<char> {
    " WHERE p.is_primary = 1"@ + scope
}

pub open spec fn total_text(scope: Seq<char>) -> Seq<char> {
    "SELECT COUNT(*) FROM photos p"@ + primary_in(scope)
}

/// The number of photos that meet a condition, among those that a query looks at.
pub open spec fn counted(condition: Seq<char>) -> Seq<char> {
    "COALESCE(SUM(CASE WHEN "@ + condition + " THEN 1 ELSE 0 END), 0)"@
}

/// A column, with the key for photos without a value where it has none.
pub open spec fn or_none(column: Seq<char>) -> Seq<char> {
    "COALESCE("@ + column + ", '__none__')"@
}

/// Looked at are photos with a decision or with stars: many give stars first and
/// decide later.
pub open spec fn progress_text(scope: Seq<char>) -> Seq<char> {
    "SELECT "@ + counted(DECISION@ + " IN ('keep', 'reject') OR "@ + STARS@ + " > 0"@) + ", "@
        + counted(DECISION@ + " = 'keep'"@) + " "@ + FROM_PHOTOS@ + primary_in(scope)
}

pub open spec fn pair_states_text(scope: Seq<char>) -> Seq<char> {
    "SELECT "@ + counted(HAS_RAW@ + " AND "@ + HAS_JPG@) + ", "@ + counted(
        HAS_RAW@ + " AND NOT "@ + HAS_JPG@,
    ) + ", "@ + counted("NOT "@ + HAS_RAW@ + " AND "@ + HAS_JPG@) + " FROM photos p"@
        + primary_in(scope)
}

pub open spec fn cameras_text(scope: Seq<char>) -> Seq<char> {
    "SELECT "@ + or_none("p.camera_serial"@)
        + " AS serial, COALESCE(MAX(p.camera_model), '未知机身') AS model, COUNT(*) AS n FROM photos p"@
        + primary_in(scope) + " GROUP BY serial ORDER BY n DESC, model"@
}

pub open spec fn distinct_days_text(scope: Seq<char>) -> Seq<char> {
    "SELECT COUNT(*) FROM (SELECT DISTINCT ("@ + DAY_KEY@
        + ") AS d FROM photos p WHERE p.is_primary = 1 AND ("@ + DAY_KEY@ + ") IS NOT NULL"@ + scope
        + ")"@
}

pub open spec fn undated_text(scope: Seq<char>) -> Seq<char> {
    "SELECT COUNT(*) FROM photos p WHERE p.is_primary = 1 AND ("@ + DAY_KEY@ + ") IS NULL"@ + scope
}

pub open spec fn days_text(scope: Seq<char>) -> Seq<char> {
    "SELECT ("@ + DAY_KEY@ + ") AS d, COUNT(*) AS n FROM photos p WHERE p.is_primary = 1 AND ("@
        + DAY_KEY@ + ") IS NOT NULL"@ + scope + " GROUP BY d ORDER BY d DESC LIMIT "@ + dec(
        DAY_FACET_LIMIT as nat,
    )
}

pub open spec fn decisions_text(scope: Seq<char>) -> Seq<char> {
    "SELECT "@ + counted(DECISION@ + " = 'none'"@) + ", "@ + counted(DECISION@ + " = 'keep'"@)
        + ", "@ + counted(DECISION@ + " = 'reject'"@) + " "@ + FROM_PHOTOS@ + primary_in(scope)
}

pub open spec fn stars_text(scope: Seq<char>) -> Seq<char> {
    "SELECT "@ + STARS@ + " AS s, COUNT(*) "@ + FROM_PHOTOS@ + primary_in(scope) + " GROUP BY s"@
}

pub open spec fn colors_text(scope: Seq<char>) -> Seq<char> {
    "SELECT "@ + COLOR@ + " AS c, COUNT(*) "@ + FROM_PHOTOS@ + primary_in(scope) + " GROUP BY c"@
}

/// Photos that were not analysed yet count for no flaw.
pub open spec fn quality_text(scope: Seq<char>) -> Seq<char> {
    "SELECT "@ + counted("p.sharpness IS NOT NULL AND p.sharpness < "@ + BLUR_THRESHOLD@) + ", "@
        + counted("p.overexposed IS NOT NULL AND p.overexposed >= "@ + OVEREXPOSED_THRESHOLD@)
        + ", "@ + counted(
        "p.underexposed IS NOT NULL AND p.underexposed >= "@ + UNDEREXPOSED_THRESHOLD@,
    ) + ", "@ + counted("p.eye_ratio IS NOT NULL AND p.eye_ratio < "@ + CLOSED_THRESHOLD@) + " "@
        + FROM_PHOTOS@ + primary_in(scope)
}

pub open spec fn lenses_text(scope: Seq<char>) -> Seq<char> {
    "SELECT "@ + or_none("p.lens"@) + " AS l, COUNT(*) "@ + FROM_PHOTOS@ + primary_in(scope)
        + " GROUP BY l ORDER BY COUNT(*) DESC, l"@
}

/// The column lies from `lo` on and below `hi`.
pub open spec fn between_text(column: Seq<char>, lo: Seq<char>, hi: Seq<char>) -> Seq<char> {
    column + " >= "@ + lo + " AND "@ + column + " < "@ + hi
}

/// The number of photos whose column lies from `lo` on and below `hi`.
pub open spec fn range_text(column: Seq<char>, lo: Seq<char>, hi: Seq<char>) -> Seq<char> {
    counted(between_text(column, lo, hi))
}

/// Four ranges that start at 0 and follow on each other; the last is open.
pub open spec fn ranges_text(
    column: Seq<char>,
    a: Seq<char>,
    b: Seq<char>,
    c: Seq<char>,
    scope: Seq<char>,
) -> Seq<char> {
    "SELECT "@ + range_text(column, "0"@, a) + ", "@ + range_text(column, a, b) + ", "@
        + range_text(column, b, c) + ", "@ + range_text(column, c, LARGEST_REAL@) + " "@
        + FROM_PHOTOS@ + primary_in(scope)
}

/// The queries for the counts, all with the same values for their placeholders.
#[derive(Debug, Clone)]
pub struct FacetQueries {
    pub total: String,
    pub progress: String,
    pub pair_states: String,
    pub cameras: String,
    pub distinct_days: String,
    pub undated: String,
    pub days: String,
    pub decisions: String,
    pub stars: String,
    pub colors: String,
    pub quality: String,
    pub lenses: String,
    pub focals: String,
    pub isos: String,
    pub args: Vec<SqlArg>,
}

fn total_sql(scope: &str) -> (r: String)
    ensures
        r@ == total_text(scope@),
{
    let tail = cat(" WHERE p.is_primary = 1", scope);
    let mut s = "SELECT COUNT(*) FROM photos p".to_string();
    s.push_str(tail.as_str());
    s
}

fn counted_sql(condition: &str) -> (r: String)
    ensures
        r@ == counted(condition@),
{
    cat3("COALESCE(SUM(CASE WHEN ", condition, " THEN 1 ELSE 0 END), 0)")
}

fn or_none_sql(column: &str) -> (r: String)
    ensures
        r@ == or_none(column@),
{
    cat3("COALESCE(", column, ", '__none__')")
}

fn progress_sql(scope: &str) -> (r: String)
    ensures
        r@ == progress_text(scope@),
{
    let tail = cat(" WHERE p.is_primary = 1", scope);
    let mut seen = cat3(DECISION, " IN ('keep', 'reject') OR ", STARS);
    seen.push_str(" > 0");
    let seen = counted_sql(seen.as_str());
    let kept = counted_sql(cat(DECISION, " = 'keep'").as_str());
    let mut s = "SELECT ".to_string();
    s.push_str(seen.as_str());
    s.push_str(", ");
    s.push_str(kept.as_str());
    s.push_str(" ");
    s.push_str(FROM_PHOTOS);
    s.push_str(tail.as_str());
    s
}

fn pair_states_sql(scope: &str) -> (r: String)
    ensures
        r@ == pair_states_text(scope@),
{
    let tail = cat(" WHERE p.is_primary = 1", scope);
    let both = counted_sql(cat3(HAS_RAW, " AND ", HAS_JPG).as_str());
    let raw = counted_sql(cat3(HAS_RAW, " AND NOT ", HAS_JPG).as_str());
    let mut no_raw = cat3("NOT ", HAS_RAW, " AND ");
    no_raw.push_str(HAS_JPG);
    let jpg = counted_sql(no_raw.as_str());
    let mut s = "SELECT ".to_string();
    s.push_str(both.as_str());
    s.push_str(", ");
    s.push_str(raw.as_str());
    s.push_str(", ");
    s.push_str(jpg.as_str());
    s.push_str(" FROM photos p");
    s.push_str(tail.as_str());
    s
}

fn cameras_sql(scope: &str) -> (r: String)
    ensures
        r@ == cameras_text(scope@),
{
    let tail = cat(" WHERE p.is_primary = 1", scope);
    let serial = or_none_sql("p.camera_serial");
    let mut s = cat("SELECT ", serial.as_str());
    s.push_str(" AS serial, COALESCE(MAX(p.camera_model), '未知机身') AS model, COUNT(*) AS n FROM photos p");
    s.push_str(tail.as_str());
    s.push_str(" GROUP BY serial ORDER BY n DESC, model");
    s
}

fn distinct_days_sql(scope: &str) -> (r: String)
    ensures
        r@ == distinct_days_text(scope@),
{
    let mut s = "SELECT COUNT(*) FROM (SELECT DISTINCT (".to_string();
    s.push_str(DAY_KEY);
    s.push_str(") AS d FROM photos p WHERE p.is_primary = 1 AND (");
    s.push_str(DAY_KEY);
    s.push_str(") IS NOT NULL");
    s.push_str(scope);
    s.push_str(")");
    s
}

fn undated_sql(scope: &str) -> (r: String)
    ensures
        r@ == undated_text(scope@),
{
    let mut s = "SELECT COUNT(*) FROM photos p WHERE p.is_primary = 1 AND (".to_string();
    s.push_str(DAY_KEY);
    s.push_str(") IS NULL");
    s.push_str(scope);
    s
}

fn days_sql(scope: &str) -> (r: String)
    ensures
        r@ == days_text(scope@),
{
    let limit = decimal(DAY_FACET_LIMIT as u64);
    let mut s = "SELECT (".to_string();
    s.push_str(DAY_KEY);
    s.push_str(") AS d, COUNT(*) AS n FROM photos p WHERE p.is_primary = 1 AND (");
    s.push_str(DAY_KEY);
    s.push_str(") IS NOT NULL");
    s.push_str(scope);
    s.push_str(" GROUP BY d ORDER BY d DESC LIMIT ");
    s.push_str(limit.as_str());
    s
}

fn decisions_sql(scope: &str) -> (r: String)
    ensures
        r@ == decisions_text(scope@),
{
    let tail = cat(" WHERE p.is_primary = 1", scope);
    let none = counted_sql(cat(DECISION, " = 'none'").as_str());
    let keep = counted_sql(cat(DECISION, " = 'keep'").as_str());
    let reject = counted_sql(cat(DECISION, " = 'reject'").as_str());
    let mut s = "SELECT ".to_string();
    s.push_str(none.as_str());
    s.push_str(", ");
    s.push_str(keep.as_str());
    s.push_str(", ");
    s.push_str(reject.as_str());
    s.push_str(" ");
    s.push_str(FROM_PHOTOS);
    s.push_str(tail.as_str());
    s
}

fn stars_sql(scope: &str) -> (r: String)
    ensures
        r@ == stars_text(scope@),
{
    let tail = cat(" WHERE p.is_primary = 1", scope);
    let mut s = "SELECT ".to_string();
    s.push_str(STARS);
    s.push_str(" AS s, COUNT(*) ");
    s.push_str(FROM_PHOTOS);
    s.push_str(tail.as_str());
    s.push_str(" GROUP BY s");
    s
}

fn colors_sql(scope: &str) -> (r: String)
    ensures
        r@ == colors_text(scope@),
{
    let tail = cat(" WHERE p.is_primary = 1", scope);
    let mut s = "SELECT ".to_string();
    s.push_str(COLOR);
    s.push_str(" AS c, COUNT(*) ");
    s.push_str(FROM_PHOTOS);
    s.push_str(tail.as_str());
    s.push_str(" GROUP BY c");
    s
}

fn quality_sql(scope: &str) -> (r: String)
    ensures
        r@ == quality_text(scope@),
{
    let tail = cat(" WHERE p.is_primary = 1", scope);
    let blur = cat("p.sharpness IS NOT NULL AND p.sharpness < ", BLUR_THRESHOLD);
    let blur = counted_sql(blur.as_str());
    let over = cat("p.overexposed IS NOT NULL AND p.overexposed >= ", OVEREXPOSED_THRESHOLD);
    let over = counted_sql(over.as_str());
    let under = cat("p.underexposed IS NOT NULL AND p.underexposed >= ", UNDEREXPOSED_THRESHOLD);
    let under = counted_sql(under.as_str());
    let blink = cat("p.eye_ratio IS NOT NULL AND p.eye_ratio < ", CLOSED_THRESHOLD);
    let blink = counted_sql(blink.as_str());
    let mut s = "SELECT ".to_string();
    s.push_str(blur.as_str());
    s.push_str(", ");
    s.push_str(over.as_str());
    s.push_str(", ");
    s.push_str(under.as_str());
    s.push_str(", ");
    s.push_str(blink.as_str());
    s.push_str(" ");
    s.push_str(FROM_PHOTOS);
    s.push_str(tail.as_str());
    s
}

fn lenses_sql(scope: &str) -> (r: String)
    ensures
        r@ == lenses_text(scope@),
{
    let tail = cat(" WHERE p.is_primary = 1", scope);
    let lens = or_none_sql("p.lens");
    let mut s = cat3("SELECT ", lens.as_str(), " AS l, COUNT(*) ");
    s.push_str(FROM_PHOTOS);
    s.push_str(tail.as_str());
    s.push_str(" GROUP BY l ORDER BY COUNT(*) DESC, l");
    s
}

fn range_sql(column: &str, lo: &str, hi: &str) -> (r: String)
    ensures
        r@ == range_text(column@, lo@, hi@),
{
    let mut s = cat3(column, " >= ", lo);
    s.push_str(" AND ");
    s.push_str(column);
    s.push_str(" < ");
    s.push_str(hi);
    counted_sql(s.as_str())
}

fn ranges_sql(column: &str, a: &str, b: &str, c: &str, scope: &str) -> (r: String)
    ensures
        r@ == ranges_text(column@, a@, b@, c@, scope@),
{
    let tail = cat(" WHERE p.is_primary = 1", scope);
    let mut s = "SELECT ".to_string();
    let first = range_sql(column, "0", a);
    s.push_str(first.as_str());
    s.push_str(", ");
    let second = range_sql(column, a, b);
    s.push_str(second.as_str());
    s.push_str(", ");
    let third = range_sql(column, b, c);
    s.push_str(third.as_str());
    s.push_str(", ");
    let last = range_sql(column, c, LARGEST_REAL);
    s.push_str(last.as_str());
    s.push_str(" ");
    s.push_str(FROM_PHOTOS);
    s.push_str(tail.as_str());
    s
}

/// The queries for the counts over the given directories.
pub fn facet_queries(roots: &Option<Vec<String>>, sep: char) -> (r: FacetQueries)
    ensures
        ({
            let scope = scope_suffix(prefixes_in(roots_view(*roots), sep).len());
            &&& r.total@ == total_text(scope)
            &&& r.progress@ == progress_text(scope)
            &&& r.pair_states@ == pair_states_text(scope)
            &&& r.cameras@ == cameras_text(scope)
            &&& r.distinct_days@ == distinct_days_text(scope)
            &&& r.undated@ == undated_text(scope)
            &&& r.days@ == days_text(scope)
            &&& r.decisions@ == decisions_text(scope)
            &&& r.stars@ == stars_text(scope)
            &&& r.colors@ == colors_text(scope)
            &&& r.quality@ == quality_text(scope)
            &&& r.lenses@ == lenses_text(scope)
            &&& r.focals@ == ranges_text("p.focal_len"@, "24"@, "70"@, "200"@, scope)
            &&& r.isos@ == ranges_text("p.iso"@, "400"@, "1600"@, "6400"@, scope)
        }),
        args_view(r.args@) == doubled(prefixes_in(roots_view(*roots), sep)),
{
    let (scope, args) = scope_where(roots, sep);
    let s = scope.as_str();
    FacetQueries {
        total: total_sql(s),
        progress: progress_sql(s),
        pair_states: pair_states_sql(s),
        cameras: cameras_sql(s),
        distinct_days: distinct_days_sql(s),
        undated: undated_sql(s),
        days: days_sql(s),
        decisions: decisions_sql(s),
        stars: stars_sql(s),
        colors: colors_sql(s),
        quality: quality_sql(s),
        lenses: lenses_sql(s),
        focals: ranges_sql("p.focal_len", "24", "70", "200", s),
        isos: ranges_sql("p.iso", "400", "1600", "6400", s),
        args,
    }
}

// ---------------------------------------------------------------------------
// What the queries gave
// ---------------------------------------------------------------------------

/// A camera by its serial number, or `__none__`.
#[derive(Debug, Clone)]
pub struct CameraCount {
    pub serial: String,
    pub model: String,
    pub count: i64,
}

/// A value and how often it occurs.
#[derive(Debug, Clone)]
pub struct NamedCount {
    pub name: String,
    pub count: i64,
}

/// A number of stars and how often it occurs.
#[derive(Debug, Clone, Copy, PartialEq, Eq, Structural)]
pub struct StarCount {
    pub stars: i64,
    pub count: i64,
}

/// Four counts, in the order of their ranges.
#[derive(Debug, Clone, Copy, PartialEq, Eq, Structural)]
pub struct FourCounts {
    pub a: i64,
    pub b: i64,
    pub c: i64,
    pub d: i64,
}

/// The results of the queries.
#[derive(Debug, Clone)]
pub struct FacetRows {
    pub total: i64,
    pub processed: i64,
    pub kept: i64,
    pub both: i64,
    pub raw_only: i64,
    pub jpg_only: i64,
    pub cameras: Vec<CameraCount>,
    pub distinct_days: i64,
    pub undated: i64,
    pub days: Vec<NamedCount>,
    pub unmarked: i64,
    pub keep: i64,
    pub reject: i64,
    pub stars: Vec<StarCount>,
    pub colors: Vec<NamedCount>,
    pub quality: FourCounts,
    pub lenses: Vec<NamedCount>,
    pub focals: Option<FourCounts>,
    pub isos: Option<FourCounts>,
}

/// All counts beside the filters.
#[derive(Debug, Clone)]
pub struct LibraryFacets {
    pub total: i64,
    /// Photos that were looked at.
    pub processed: i64,
    pub kept: i64,
    pub pair_states: Vec<Facet>,
    pub cameras: Vec<Facet>,
    pub days: Vec<Facet>,
    /// Whether there are more days than are listed.
    pub days_truncated: bool,
    pub decisions: Vec<Facet>,
    pub stars: Vec<Facet>,
    pub colors: Vec<Facet>,
    pub quality: Vec<Facet>,
    pub lenses: Vec<Facet>,
    pub focals: Vec<Facet>,
    pub isos: Vec<Facet>,
}

pub open spec fn pair_state_facets(
    total: i64,
    both: i64,
    raw_only: i64,
    jpg_only: i64,
) -> Seq<FacetModel> {
    seq![
        facet("all"@, "全部"@, total),
        facet("both"@, "NEF + JPG"@, both),
        facet("rawOnly"@, "仅 NEF"@, raw_only),
        facet("jpgOnly"@, "仅 JPG"@, jpg_only),
        facet("orphan"@, "有缺失（孤立）"@, (raw_only + jpg_only) as i64),
    ]
}

fn pair_states(total: i64, both: i64, raw_only: i64, jpg_only: i64) -> (r: Vec<Facet>)
    requires
        i64::MIN <= raw_only + jpg_only <= i64::MAX,
    ensures
        facets_view(r@) == pair_state_facets(total, both, raw_only, jpg_only),
{
    let mut out = no_facets();
    push_facet(&mut out, "all", "全部", total);
    push_facet(&mut out, "both", "NEF + JPG", both);
    push_facet(&mut out, "rawOnly", "仅 NEF", raw_only);
    push_facet(&mut out, "jpgOnly", "仅 JPG", jpg_only);
    push_facet(&mut out, "orphan", "有缺失（孤立）", raw_only + jpg_only);
    out
}

/// Photos of a camera without a serial number are counted together.
pub open spec fn camera_facet(c: CameraCount) -> FacetModel {
    facet(
        c.serial@,
        if c.serial@ == NONE_KEY@ {
            c.model@ + "（无序列号）"@
        } else {
            c.model@
        },
        c.count,
    )
}

pub open spec fn camera_facets(c: Seq<CameraCount>) -> Seq<FacetModel> {
    c.map_values(|x: CameraCount| camera_facet(x))
}

fn cameras(rows: &Vec<CameraCount>) -> (r: Vec<Facet>)
    ensures
        facets_view(r@) == camera_facets(rows@),
{
    let mut out = no_facets();
    assert(camera_facets(rows@.take(0)) =~= Seq::<FacetModel>::empty());
    for i in 0..rows.len()
        invariant
            facets_view(out@) == camera_facets(rows@.take(i as int)),
    {
        let row = &rows[i];
        if same(row.serial.as_str(), NONE_KEY) {
            let label = cat(row.model.as_str(), "（无序列号）");
            push_facet(&mut out, row.serial.as_str(), label.as_str(), row.count);
        } else {
            push_facet(&mut out, row.serial.as_str(), row.model.as_str(), row.count);
        }
        assert(camera_facets(rows@.take(i + 1)) =~= camera_facets(rows@.take(i as int)).push(
            camera_facet(rows@[i as int]),
        ));
    }
    assert(rows@.take(rows@.len() as int) =~= rows@);
    out
}

/// Values that are shown as they are; `unknown` is shown for `__none__`.
pub open spec fn named_facet(c: NamedCount, unknown: Seq<char>) -> FacetModel {
    facet(
        c.name@,
        if c.name@ == NONE_KEY@ {
            unknown
        } else {
            c.name@
        },
        c.count,
    )
}

pub open spec fn named_facets(c: Seq<NamedCount>, unknown: Seq<char>) -> Seq<FacetModel> {
    c.map_values(|x: NamedCount| named_facet(x, unknown))
}

fn lenses(rows: &Vec<NamedCount>) -> (r: Vec<Facet>)
    ensures
        facets_view(r@) == named_facets(rows@, "未知镜头"@),
{
    let mut out = no_facets();
    assert(named_facets(rows@.take(0), "未知镜头"@) =~= Seq::<FacetModel>::empty());
    for i in 0..rows.len()
        invariant
            facets_view(out@) == named_facets(rows@.take(i as int), "未知镜头"@),
    {
        let row = &rows[i];
        if same(row.name.as_str(), NONE_KEY) {
            push_facet(&mut out, row.name.as_str(), "未知镜头", row.count);
        } else {
            push_facet(&mut out, row.name.as_str(), row.name.as_str(), row.count);
        }
        assert(named_facets(rows@.take(i + 1), "未知镜头"@) =~= named_facets(
            rows@.take(i as int),
            "未知镜头"@,
        ).push(named_facet(rows@[i as int], "未知镜头"@)));
    }
    assert(rows@.take(rows@.len() as int) =~= rows@);
    out
}

pub open spec fn plain_day_facets(days: Seq<NamedCount>) -> Seq<FacetModel> {
    days.map_values(|x: NamedCount| facet(x.name@, x.name@, x.count))
}

/// The days, and behind them the photos without any time.
pub open spec fn day_facets(days: Seq<NamedCount>, undated: i64) -> Seq<FacetModel> {
    if undated > 0 {
        plain_day_facets(days).push(facet(NONE_KEY@, "无时间信息"@, undated))
    } else {
        plain_day_facets(days)
    }
}

fn days(rows: &Vec<NamedCount>, undated: i64) -> (r: Vec<Facet>)
    ensures
        facets_view(r@) == day_facets(rows@, undated),
{
    let mut out = no_facets();
    assert(plain_day_facets(rows@.take(0)) =~= Seq::<FacetModel>::empty());
    for i in 0..rows.len()
        invariant
            facets_view(out@) == plain_day_facets(rows@.take(i as int)),
    {
        let row = &rows[i];
        push_facet(&mut out, row.name.as_str(), row.name.as_str(), row.count);
        assert(plain_day_facets(rows@.take(i + 1)) =~= plain_day_facets(rows@.take(i as int)).push(
            facet(rows@[i as int].name@, rows@[i as int].name@, rows@[i as int].count),
        ));
    }
    assert(rows@.take(rows@.len() as int) =~= rows@);
    if undated > 0 {
        push_facet(&mut out, NONE_KEY, "无时间信息", undated);
    }
    out
}

pub open spec fn decision_facets(total: i64, unmarked: i64, keep: i64, reject: i64) -> Seq<
    FacetModel,
> {
    seq![
        facet("all"@, "全部"@, total),
        facet("none"@, "未标记"@, unmarked),
        facet("keep"@, "保留"@, keep),
        facet("reject"@, "淘汰"@, reject),
    ]
}

fn decisions(total: i64, unmarked: i64, keep: i64, reject: i64) -> (r: Vec<Facet>)
    ensures
        facets_view(r@) == decision_facets(total, unmarked, keep, reject),
{
    let mut out = no_facets();
    push_facet(&mut out, "all", "全部", total);
    push_facet(&mut out, "none", "未标记", unmarked);
    push_facet(&mut out, "keep", "保留", keep);
    push_facet(&mut out, "reject", "淘汰", reject);
    out
}

/// The count given for a number of stars; 0 where none is given. Numbers out of
/// range are brought into it.
pub open spec fn star_count(rows: Seq<StarCount>, stars: int) -> i64
    decreases rows.len(),
{
    if rows.len() == 0 {
        0
    } else if stars_in_range(rows.last().stars) == stars {
        rows.last().count
    } else {
        star_count(rows.drop_last(), stars)
    }
}

fn count_of_stars(rows: &Vec<StarCount>, stars: i64) -> (r: i64)
    ensures
        r == star_count(rows@, stars as int),
{
    let mut i: usize = rows.len();
    proof {
        assert(rows@.take(i as int) =~= rows@);
    }
    while i > 0
        invariant
            i <= rows@.len(),
            star_count(rows@, stars as int) == star_count(rows@.take(i as int), stars as int),
        decreases i,
    {
        if clamp_stars(rows[i - 1].stars) == stars {
            return rows[i - 1].count;
        }
        proof {
            assert(rows@.take(i as int).drop_last() =~= rows@.take(i - 1));
        }
        i = i - 1;
    }
    0
}

/// All six numbers of stars, from none to five.
pub open spec fn star_facets(rows: Seq<StarCount>) -> Seq<FacetModel> {
    seq![
        facet("0"@, "未打星"@, star_count(rows, 0)),
        facet("1"@, "★"@, star_count(rows, 1)),
        facet("2"@, "★★"@, star_count(rows, 2)),
        facet("3"@, "★★★"@, star_count(rows, 3)),
        facet("4"@, "★★★★"@, star_count(rows, 4)),
        facet("5"@, "★★★★★"@, star_count(rows, 5)),
    ]
}

fn stars(rows: &Vec<StarCount>) -> (r: Vec<Facet>)
    ensures
        facets_view(r@) == star_facets(rows@),
{
    let mut out = no_facets();
    push_facet(&mut out, "0", "未打星", count_of_stars(rows, 0));
    push_facet(&mut out, "1", "★", count_of_stars(rows, 1));
    push_facet(&mut out, "2", "★★", count_of_stars(rows, 2));
    push_facet(&mut out, "3", "★★★", count_of_stars(rows, 3));
    push_facet(&mut out, "4", "★★★★", count_of_stars(rows, 4));
    push_facet(&mut out, "5", "★★★★★", count_of_stars(rows, 5));
    out
}

/// The count given for a name; 0 where none is given.
pub open spec fn named_count(rows: Seq<NamedCount>, name: Seq<char>) -> i64
    decreases rows.len(),
{
    if rows.len() == 0 {
        0
    } else if rows.last().name@ == name {
        rows.last().count
    } else {
        named_count(rows.drop_last(), name)
    }
}

fn count_of_name(rows: &Vec<NamedCount>, name: &str) -> (r: i64)
    ensures
        r == named_count(rows@, name@),
{
    let mut i: usize = rows.len();
    proof {
        assert(rows@.take(i as int) =~= rows@);
    }
    while i > 0
        invariant
            i <= rows@.len(),
            named_count(rows@, name@) == named_count(rows@.take(i as int), name@),
        decreases i,
    {
        if same(rows[i - 1].name.as_str(), name) {
            return rows[i - 1].count;
        }
        proof {
            assert(rows@.take(i as int).drop_last() =~= rows@.take(i - 1));
        }
        i = i - 1;
    }
    0
}

/// All five colours, in the order of their keys on the keyboard.
pub open spec fn color_facets(rows: Seq<NamedCount>) -> Seq<FacetModel> {
    seq![
        facet("red"@, "红"@, named_count(rows, "red"@)),
        facet("yellow"@, "黄"@, named_count(rows, "yellow"@)),
        facet("green"@, "绿"@, named_count(rows, "green"@)),
        facet("blue"@, "蓝"@, named_count(rows, "blue"@)),
        facet("purple"@, "紫"@, named_count(rows, "purple"@)),
    ]
}

fn colors(rows: &Vec<NamedCount>) -> (r: Vec<Facet>)
    ensures
        facets_view(r@) == color_facets(rows@),
{
    let mut out = no_facets();
    push_facet(&mut out, "red", "红", count_of_name(rows, "red"));
    push_facet(&mut out, "yellow", "黄", count_of_name(rows, "yellow"));
    push_facet(&mut out, "green", "绿", count_of_name(rows, "green"));
    push_facet(&mut out, "blue", "蓝", count_of_name(rows, "blue"));
    push_facet(&mut out, "purple", "紫", count_of_name(rows, "purple"));
    out
}

pub open spec fn quality_facets(q: FourCounts) -> Seq<FacetModel> {
    seq![
        facet("blur"@, "可能糊了"@, q.a),
        facet("over"@, "高光溢出"@, q.b),
        facet("under"@, "暗部死黑"@, q.c),
        facet("blink"@, "疑似闭眼"@, q.d),
    ]
}

fn quality(q: FourCounts) -> (r: Vec<Facet>)
    ensures
        facets_view(r@) == quality_facets(q),
{
    let mut out = no_facets();
    push_facet(&mut out, "blur", "可能糊了", q.a);
    push_facet(&mut out, "over", "高光溢出", q.b);
    push_facet(&mut out, "under", "暗部死黑", q.c);
    push_facet(&mut out, "blink", "疑似闭眼", q.d);
    out
}

/// The ranges of focal lengths; none where the query gave no row.
pub open spec fn focal_facets(c: Option<FourCounts>) -> Seq<FacetModel> {
    match c {
        Some(n) => seq![
            facet("wide"@, "24 以下"@, n.a),
            facet("normal"@, "24–70"@, n.b),
            facet("tele"@, "70–200"@, n.c),
            facet("super"@, "200 以上"@, n.d),
        ],
        None => Seq::empty(),
    }
}

fn focals(c: Option<FourCounts>) -> (r: Vec<Facet>)
    ensures
        facets_view(r@) == focal_facets(c),
{
    let mut out = no_facets();
    if let Some(n) = c {
        push_facet(&mut out, "wide", "24 以下", n.a);
        push_facet(&mut out, "normal", "24–70", n.b);
        push_facet(&mut out, "tele", "70–200", n.c);
        push_facet(&mut out, "super", "200 以上", n.d);
    }
    out
}

/// The ranges of sensitivities; none where the query gave no row.
pub open spec fn iso_facets(c: Option<FourCounts>) -> Seq<FacetModel> {
    match c {
        Some(n) => seq![
            facet("low"@, "400 以下"@, n.a),
            facet("mid"@, "400–1600"@, n.b),
            facet("high"@, "1600–6400"@, n.c),
            facet("veryHigh"@, "6400 以上"@, n.d),
        ],
        None => Seq::empty(),
    }
}

fn isos(c: Option<FourCounts>) -> (r: Vec<Facet>)
    ensures
        facets_view(r@) == iso_facets(c),
{
    let mut out = no_facets();
    if let Some(n) = c {
        push_facet(&mut out, "low", "400 以下", n.a);
        push_facet(&mut out, "mid", "400–1600", n.b);
        push_facet(&mut out, "high", "1600–6400", n.c);
        push_facet(&mut out, "veryHigh", "6400 以上", n.d);
    }
    out
}

/// The counts beside the filters, from what the queries gave.
pub open spec fn is_facets_of(r: LibraryFacets, rows: FacetRows) -> bool {
    &&& r.total == rows.total
    &&& r.processed == rows.processed
    &&& r.kept == rows.kept
    &&& facets_view(r.pair_states@) == pair_state_facets(
        rows.total,
        rows.both,
        rows.raw_only,
        rows.jpg_only,
    )
    &&& facets_view(r.cameras@) == camera_facets(rows.cameras@)
    &&& facets_view(r.days@) == day_facets(rows.days@, rows.undated)
    &&& r.days_truncated == (rows.distinct_days > DAY_FACET_LIMIT)
    &&& facets_view(r.decisions@) == decision_facets(
        rows.total,
        rows.unmarked,
        rows.keep,
        rows.reject,
    )
    &&& facets_view(r.stars@) == star_facets(rows.stars@)
    &&& facets_view(r.colors@) == color_facets(rows.colors@)
    &&& facets_view(r.quality@) == quality_facets(rows.quality)
    &&& facets_view(r.lenses@) == named_facets(rows.lenses@, "未知镜头"@)
    &&& facets_view(r.focals@) == focal_facets(rows.focals)
    &&& facets_view(r.isos@) == iso_facets(rows.isos)
}

/// Puts the counts beside the filters together.
pub fn facets_of(rows: &FacetRows) -> (r: LibraryFacets)
    requires
        i64::MIN <= rows.raw_only + rows.jpg_only <= i64::MAX,
    ensures
        is_facets_of(r, *rows),
{
    LibraryFacets {
        total: rows.total,
        processed: rows.processed,
        kept: rows.kept,
        pair_states: pair_states(rows.total, rows.both, rows.raw_only, rows.jpg_only),
        cameras: cameras(&rows.cameras),
        days: days(&rows.days, rows.undated),
        days_truncated: rows.distinct_days > DAY_FACET_LIMIT,
        decisions: decisions(rows.total, rows.unmarked, rows.keep, rows.reject),
        stars: stars(&rows.stars),
        colors: colors(&rows.colors),
        quality: quality(rows.quality),
        lenses: lenses(&rows.lenses),
        focals: focals(rows.focals),
        isos: isos(rows.isos),
    }
}

} // verus!
