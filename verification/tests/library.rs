use rusqlite::types::Value;
use rusqlite::Connection;
use sp::db::{
    detail_names, detail_sql, flag_on, flag_text, is_unusable_remnant, legacy_table, open_step,
    purge_index, quarantine_name, refusal_text, scan_scope, sidecar_paths, Action, Event, Legacy,
    Phase, CORRECT_TIMES, COUNT_EXIF_FAILED, COUNT_PAIRS, META_GET, META_SET, SCHEMA,
    SELECT_MEMBERS, SELECT_SIBLINGS, SET_PRIMARY, WRITE_OFFSET, WRITE_PHOTO,
};
use sp::facets::{
    facet_queries, facets_of, CameraCount, Facet, FacetRows, FourCounts, LibraryFacets, NamedCount,
    StarCount,
};
use sp::filter::{
    build_where, count_query, ids_query, page_query, pair_state_of, PairFilter, Query, SqlArg,
    NONE_KEY,
};
use sp::indexer::{fresh_row, FileStat};
use sp::marks::{
    apply_patch, chunk_bounds, distinct_keys, mark_patch, pair_keys_sql, Mark, ID_CHUNK,
    SELECT_MARK, WRITE_MARK,
};
use sp::pairing::{pick_primary, Member};

fn value(a: &SqlArg) -> Value {
    match a {
        SqlArg::Text(s) => Value::Text(s.clone()),
        SqlArg::Integer(n) => Value::Integer(*n),
        SqlArg::Real(n) => Value::Real(*n as f64),
        SqlArg::RealMax => Value::Real(f64::MAX),
    }
}

fn values(args: &[SqlArg]) -> Vec<Value> {
    args.iter().map(value).collect()
}

fn in_memory() -> Connection {
    let conn = Connection::open_in_memory().unwrap();
    conn.execute_batch(SCHEMA).unwrap();
    conn
}

/// Records a file as a scan does.
fn index(conn: &Connection, path: &str, size: i64, mtime: i64) {
    let stat = FileStat {
        file_size: size,
        mtime,
    };
    let row = fresh_row(path, format!("fp-{path}"), stat, None);
    let null = Value::Null;
    let text = |s: &str| Value::Text(s.to_string());
    conn.execute(
        WRITE_PHOTO,
        rusqlite::params_from_iter(vec![
            text(&row.path),
            text(&row.fingerprint),
            text(&row.pair_key),
            text(&row.file_kind),
            Value::Integer(row.file_size),
            Value::Integer(row.mtime),
            null.clone(),
            null.clone(),
            null.clone(),
            null.clone(),
            null.clone(),
            null.clone(),
            null.clone(),
            null.clone(),
            null.clone(),
            null.clone(),
            null.clone(),
            null.clone(),
            Value::Integer(row.exif_ok),
            Value::Integer(1),
        ]),
    )
    .unwrap();
    let members: Vec<Member> = {
        let mut stmt = conn.prepare(SELECT_MEMBERS).unwrap();
        let rows = stmt
            .query_map([&row.pair_key], |r| {
                Ok(Member {
                    id: r.get(0)?,
                    is_raw: r.get(1)?,
                })
            })
            .unwrap();
        rows.map(|r| r.unwrap()).collect()
    };
    let primary = pick_primary(&members).unwrap();
    conn.execute(SET_PRIMARY, (primary, &row.pair_key)).unwrap();
}

/// Three shots: two with both files, one with a RAW file only.
fn seeded() -> Connection {
    let conn = in_memory();
    seed(&conn);
    conn
}

fn seed(conn: &Connection) {
    for i in ["0001", "0002"] {
        index(conn, &format!("/shoot/DSC_{i}.NEF"), 8, 1_700_000_000);
        index(conn, &format!("/shoot/DSC_{i}.JPG"), 8, 1_700_000_000);
    }
    index(conn, "/shoot/DSC_0003.NEF", 5, 1_700_000_000);
}

fn one_number(conn: &Connection, q: &Query) -> i64 {
    conn.query_row(
        &q.sql,
        rusqlite::params_from_iter(values(&q.args)),
        |r| r.get(0),
    )
    .unwrap()
}

fn count(conn: &Connection, f: PairFilter) -> i64 {
    one_number(conn, &count_query(&f, '/'))
}

#[derive(Debug, Clone)]
struct Card {
    id: i64,
    pair_key: String,
    path: String,
    state: String,
}

fn page(conn: &Connection, f: &PairFilter, limit: i64, offset: i64) -> Vec<Card> {
    let q = page_query(f, limit, offset, '/');
    let mut stmt = conn.prepare(&q.sql).unwrap();
    let rows = stmt
        .query_map(rusqlite::params_from_iter(values(&q.args)), |r| {
            Ok(Card {
                id: r.get(0)?,
                pair_key: r.get(1)?,
                path: r.get(2)?,
                state: pair_state_of(r.get(4)?, r.get(5)?).to_string(),
            })
        })
        .unwrap();
    rows.map(|r| r.unwrap()).collect()
}

fn cards(conn: &Connection) -> Vec<Card> {
    page(conn, &PairFilter::default(), 100, 0)
}

fn facets(conn: &Connection, roots: Option<Vec<String>>) -> LibraryFacets {
    let q = facet_queries(&roots, '/');
    let args = values(&q.args);
    let nums = |sql: &str, n: usize| -> Vec<i64> {
        conn.query_row(sql, rusqlite::params_from_iter(args.iter()), |r| {
            (0..n).map(|i| r.get(i)).collect()
        })
        .unwrap()
    };
    let named = |sql: &str| -> Vec<NamedCount> {
        let mut stmt = conn.prepare(sql).unwrap();
        let rows = stmt
            .query_map(rusqlite::params_from_iter(args.iter()), |r| {
                Ok(NamedCount {
                    name: r.get(0)?,
                    count: r.get(1)?,
                })
            })
            .unwrap();
        rows.map(|r| r.unwrap()).collect()
    };
    let four = |sql: &str| {
        let v = nums(sql, 4);
        FourCounts {
            a: v[0],
            b: v[1],
            c: v[2],
            d: v[3],
        }
    };
    let progress = nums(&q.progress, 2);
    let states = nums(&q.pair_states, 3);
    let decisions = nums(&q.decisions, 3);
    let cameras = {
        let mut stmt = conn.prepare(&q.cameras).unwrap();
        let rows = stmt
            .query_map(rusqlite::params_from_iter(args.iter()), |r| {
                Ok(CameraCount {
                    serial: r.get(0)?,
                    model: r.get(1)?,
                    count: r.get(2)?,
                })
            })
            .unwrap();
        rows.map(|r| r.unwrap()).collect()
    };
    let stars = {
        let mut stmt = conn.prepare(&q.stars).unwrap();
        let rows = stmt
            .query_map(rusqlite::params_from_iter(args.iter()), |r| {
                Ok(StarCount {
                    stars: r.get(0)?,
                    count: r.get(1)?,
                })
            })
            .unwrap();
        rows.map(|r| r.unwrap()).collect()
    };
    facets_of(&FacetRows {
        total: nums(&q.total, 1)[0],
        processed: progress[0],
        kept: progress[1],
        both: states[0],
        raw_only: states[1],
        jpg_only: states[2],
        cameras,
        distinct_days: nums(&q.distinct_days, 1)[0],
        undated: nums(&q.undated, 1)[0],
        days: named(&q.days),
        unmarked: decisions[0],
        keep: decisions[1],
        reject: decisions[2],
        stars,
        colors: named(&q.colors),
        quality: four(&q.quality),
        lenses: named(&q.lenses),
        focals: Some(four(&q.focals)),
        isos: Some(four(&q.isos)),
    })
}

/// Marks photos, and gives the number of shots that were marked.
fn mark(
    conn: &Connection,
    ids: &[i64],
    decision: Option<&str>,
    stars: Option<i64>,
    color: Option<&str>,
) -> usize {
    let patch = mark_patch(decision, stars, color);
    let mut keys: Vec<String> = Vec::new();
    for (from, to) in chunk_bounds(ids.len(), ID_CHUNK) {
        let part = &ids[from..to];
        let mut stmt = conn.prepare(&pair_keys_sql(part.len())).unwrap();
        let rows = stmt
            .query_map(rusqlite::params_from_iter(part.iter()), |r| r.get(0))
            .unwrap();
        for k in rows {
            keys.push(k.unwrap());
        }
    }
    let keys = distinct_keys(keys);
    for key in &keys {
        let old = conn
            .query_row(SELECT_MARK, [key], |r| {
                Ok(Mark {
                    decision: r.get(0)?,
                    stars: r.get(1)?,
                    color: r.get(2)?,
                })
            })
            .ok();
        let m = apply_patch(old, &patch);
        conn.execute(WRITE_MARK, (key, &m.decision, m.stars, &m.color, 7i64))
            .unwrap();
    }
    keys.len()
}

fn stored(conn: &Connection, key: &str) -> (String, i64) {
    conn.query_row(
        "SELECT decision, stars FROM decisions WHERE pair_key = ?1",
        [key],
        |r| Ok((r.get(0)?, r.get(1)?)),
    )
    .unwrap()
}

fn stored_color(conn: &Connection, key: &str) -> String {
    conn.query_row(
        "SELECT color FROM decisions WHERE pair_key = ?1",
        [key],
        |r| r.get(0),
    )
    .unwrap_or_default()
}

fn by_mark(decision: Option<&str>, stars: Option<i64>) -> PairFilter {
    PairFilter {
        decision: decision.map(|s| s.to_string()),
        stars,
        ..Default::default()
    }
}

fn by_color(color: &str) -> PairFilter {
    PairFilter {
        color: Some(color.to_string()),
        ..Default::default()
    }
}

fn by_state(state: &str) -> PairFilter {
    PairFilter {
        pair_state: Some(state.to_string()),
        ..Default::default()
    }
}

fn in_roots(root: &str) -> PairFilter {
    PairFilter {
        roots: Some(vec![root.to_string()]),
        ..Default::default()
    }
}

fn search(text: &str) -> PairFilter {
    PairFilter {
        search: Some(text.to_string()),
        ..Default::default()
    }
}

#[test]
fn roots_scope_the_view_to_the_selected_folder() {
    let conn = in_memory();
    for i in ["0001", "0002"] {
        index(&conn, &format!("/base/A/DSC_{i}.NEF"), 8, 1);
        index(&conn, &format!("/base/A/DSC_{i}.JPG"), 8, 1);
    }
    index(&conn, "/base/AB/DSC_0009.NEF", 5, 1);

    assert_eq!(count(&conn, PairFilter::default()), 3);
    assert_eq!(count(&conn, in_roots("/base/A")), 2, "选了 A 就只看到 A 的两张");
    assert_eq!(count(&conn, in_roots("/base/A/")), 2);
    assert_eq!(
        count(&conn, in_roots("/base/AB")),
        1,
        "选了 AB 就只看到 AB 的一张，不能被 A 的前缀带进来"
    );
    assert_eq!(count(&conn, in_roots("/")), 3);
    assert_eq!(facets(&conn, Some(vec!["/base/A".to_string()])).total, 2);
    assert_eq!(facets(&conn, None).total, 3);
}

#[test]
fn filters_by_pair_state() {
    let conn = seeded();
    assert_eq!(count(&conn, PairFilter::default()), 3, "不筛时是全部");
    assert_eq!(count(&conn, by_state("both")), 2);
    assert_eq!(count(&conn, by_state("rawOnly")), 1);
    assert_eq!(count(&conn, by_state("jpgOnly")), 0);
    assert_eq!(
        count(&conn, by_state("orphan")),
        1,
        "「有缺失」应同时覆盖缺 NEF 与缺 JPG"
    );
    let states: Vec<String> = cards(&conn).into_iter().map(|c| c.state).collect();
    assert_eq!(states, vec!["both", "both", "rawOnly"]);
}

#[test]
fn paging_keeps_total_independent_of_page_size() {
    let conn = seeded();
    assert_eq!(page(&conn, &PairFilter::default(), 1, 0).len(), 1);
    assert_eq!(count(&conn, PairFilter::default()), 3);
    let rest = page(&conn, &PairFilter::default(), 100, 1);
    assert_eq!(rest.len(), 2);
}

#[test]
fn searches_by_file_name() {
    let conn = seeded();
    let found = page(&conn, &search("DSC_0002"), 100, 0);
    assert_eq!(found.len(), 1);
    assert!(found[0].path.contains("DSC_0002"));
    assert_eq!(count(&conn, search("NOTHING-AT-ALL")), 0);
    assert_eq!(count(&conn, search("  dsc_0002 ")), 1);
}

#[test]
fn search_treats_like_wildcards_literally() {
    let conn = in_memory();
    index(&conn, "/esc/A_B.NEF", 1, 1);
    index(&conn, "/esc/AXB.NEF", 1, 1);
    assert_eq!(count(&conn, search("A_B")), 1, "下划线应按字面量匹配，不该命中 AXB");
    assert_eq!(count(&conn, search("%")), 0, "百分号应按字面量匹配，路径里没有就是 0");
    assert_eq!(count(&conn, search("A")), 2, "对照：只搜 A 时两张都该命中");
    index(&conn, "/esc/C\\D.NEF", 1, 1);
    assert_eq!(count(&conn, search("\\")), 1);
}

#[test]
fn sorts_take_effect() {
    let conn = seeded();
    let sorted = |sort: &str| {
        page(
            &conn,
            &PairFilter {
                sort: Some(sort.to_string()),
                ..Default::default()
            },
            100,
            0,
        )
    };
    let asc = sorted("nameAsc");
    let desc = sorted("nameDesc");
    assert!(asc[0].path < asc[2].path, "文件名升序");
    assert!(desc[0].path > desc[2].path, "文件名降序");
    for s in ["takenAsc", "takenDesc", "sizeDesc", "starsDesc", "sharpAsc", "sharpDesc", "?"] {
        assert_eq!(sorted(s).len(), 3);
    }
    let ids = ids_query(
        &PairFilter {
            sort: Some("nameDesc".to_string()),
            ..Default::default()
        },
        '/',
    );
    let first: i64 = one_number(&conn, &ids);
    assert_eq!(first, desc[0].id);
}

#[test]
fn facets_cover_every_dimension() {
    let conn = seeded();
    let f = facets(&conn, None);
    assert_eq!(f.total, 3);
    let pick = |key: &str| f.pair_states.iter().find(|x| x.key == key).unwrap().count;
    assert_eq!(pick("all"), 3);
    assert_eq!(pick("both"), 2);
    assert_eq!(pick("rawOnly"), 1);
    assert_eq!(pick("orphan"), 1);

    assert_eq!(f.cameras.len(), 1);
    assert_eq!(f.cameras[0].key, NONE_KEY);
    assert_eq!(f.cameras[0].label, "未知机身（无序列号）");
    assert_eq!(f.cameras[0].count, 3);

    assert_eq!(f.days.len(), 1);
    assert_eq!(f.days[0].count, 3);
    assert_eq!(f.days[0].key.len(), 10, "日期键应为 YYYY-MM-DD");
    assert!(!f.days_truncated);
    assert_eq!(f.lenses[0].label, "未知镜头");
    assert_eq!(f.quality.len(), 4);
    assert_eq!(f.colors.len(), 5);
}

#[test]
fn marking_covers_the_whole_pair() {
    let conn = seeded();
    let card = cards(&conn).remove(0);
    mark(&conn, &[card.id], Some("keep"), Some(3), None);
    let mut stmt = conn
        .prepare(
            "SELECT COALESCE(d.decision, 'none'), COALESCE(d.stars, 0)
               FROM photos p LEFT JOIN decisions d ON d.pair_key = p.pair_key
              WHERE p.pair_key = ?1",
        )
        .unwrap();
    let rows: Vec<(String, i64)> = stmt
        .query_map([&card.pair_key], |r| Ok((r.get(0)?, r.get(1)?)))
        .unwrap()
        .map(|r| r.unwrap())
        .collect();
    assert_eq!(rows.len(), 2, "这一次快门应该有 NEF 和 JPG 两个文件");
    for (decision, stars) in rows {
        assert_eq!(decision, "keep");
        assert_eq!(stars, 3);
    }
}

#[test]
fn marking_counts_pairs_not_files() {
    let conn = seeded();
    let key = cards(&conn).remove(0).pair_key;
    let ids: Vec<i64> = {
        let mut stmt = conn
            .prepare("SELECT id FROM photos WHERE pair_key = ?1")
            .unwrap();
        let rows = stmt.query_map([&key], |r| r.get(0)).unwrap();
        rows.map(|r| r.unwrap()).collect()
    };
    assert_eq!(ids.len(), 2);
    assert_eq!(
        mark(&conn, &ids, Some("keep"), None, None),
        1,
        "同一张照片的两个文件应当合并成一次决定"
    );
}

#[test]
fn marks_survive_a_full_reindex() {
    let conn = seeded();
    let card = cards(&conn).remove(0);
    mark(&conn, &[card.id], Some("reject"), Some(2), None);
    assert_eq!(stored(&conn, &card.pair_key), ("reject".to_string(), 2));
    conn.execute("DELETE FROM photos", []).unwrap();
    seed(&conn);
    assert_eq!(
        stored(&conn, &card.pair_key),
        ("reject".to_string(), 2),
        "重扫把照片全部重建之后，标记必须还在"
    );
    assert_eq!(count(&conn, by_mark(Some("reject"), None)), 1);
}

#[test]
fn changing_stars_keeps_the_decision() {
    let conn = seeded();
    let card = cards(&conn).remove(0);
    mark(&conn, &[card.id], Some("keep"), None, None);
    mark(&conn, &[card.id], None, Some(5), None);
    assert_eq!(
        stored(&conn, &card.pair_key),
        ("keep".to_string(), 5),
        "调星级不该动决定"
    );
}

#[test]
fn clearing_resets_both_decision_and_stars() {
    let conn = seeded();
    let card = cards(&conn).remove(0);
    mark(&conn, &[card.id], Some("keep"), Some(4), None);
    mark(&conn, &[card.id], Some("none"), Some(0), None);
    assert_eq!(stored(&conn, &card.pair_key), ("none".to_string(), 0));
}

#[test]
fn color_is_independent_of_decision_and_stars() {
    let conn = seeded();
    let card = cards(&conn).remove(0);
    mark(&conn, &[card.id], Some("keep"), Some(2), Some("red"));
    assert_eq!(stored_color(&conn, &card.pair_key), "red");
    assert_eq!(stored(&conn, &card.pair_key), ("keep".to_string(), 2));
    mark(&conn, &[card.id], None, None, Some("green"));
    assert_eq!(stored_color(&conn, &card.pair_key), "green", "只改色标");
    assert_eq!(
        stored(&conn, &card.pair_key),
        ("keep".to_string(), 2),
        "改色标不该顺手把决定和星级清掉"
    );
}

#[test]
fn color_can_be_cleared_without_touching_other_marks() {
    let conn = seeded();
    let card = cards(&conn).remove(0);
    mark(&conn, &[card.id], Some("keep"), Some(3), Some("purple"));
    assert_eq!(count(&conn, by_color("purple")), 1);
    assert_eq!(count(&conn, by_color("red")), 0);
    mark(&conn, &[card.id], None, None, Some(""));
    assert_eq!(
        stored_color(&conn, &card.pair_key),
        "",
        "传空串要真的把色标清掉"
    );
    assert_eq!(
        stored(&conn, &card.pair_key),
        ("keep".to_string(), 3),
        "清色标不该动决定和星级"
    );
    assert_eq!(count(&conn, by_color("purple")), 0);
}

#[test]
fn unknown_color_values_are_ignored() {
    let conn = seeded();
    let card = cards(&conn).remove(0);
    mark(&conn, &[card.id], None, None, Some("chartreuse"));
    assert_eq!(stored_color(&conn, &card.pair_key), "", "认不出就当没标");
    mark(&conn, &[card.id], None, None, Some("Red"));
    assert_eq!(stored_color(&conn, &card.pair_key), "red", "大小写不敏感");
}

#[test]
fn filters_by_decision_and_stars() {
    let conn = seeded();
    let page = cards(&conn);
    assert_eq!(page.len(), 3);
    mark(&conn, &[page[0].id], Some("keep"), None, None);
    mark(&conn, &[page[1].id], Some("reject"), Some(4), None);

    let c = |f: PairFilter| count(&conn, f);
    assert_eq!(c(by_mark(None, None)), 3, "不筛时是全部");
    assert_eq!(c(by_mark(Some("keep"), None)), 1);
    assert_eq!(c(by_mark(Some("reject"), None)), 1);
    assert_eq!(c(by_mark(Some("none"), None)), 1);
    assert_eq!(c(by_mark(Some("marked"), None)), 2, "「已标记」＝保留＋淘汰");
    assert_eq!(c(by_mark(None, Some(4))), 1);
    assert_eq!(c(by_mark(None, Some(0))), 2, "0 星要能单独筛出来");
    assert_eq!(c(by_mark(Some("keep"), Some(0))), 1, "两个维度要能叠加");
    assert_eq!(c(by_mark(Some("随便什么"), None)), 3);
    assert_eq!(c(by_mark(Some("all"), None)), 3);
}

#[test]
fn marking_a_whole_page_at_once() {
    let conn = seeded();
    let ids: Vec<i64> = cards(&conn).iter().map(|c| c.id).collect();
    assert_eq!(ids.len(), 3);
    assert_eq!(mark(&conn, &ids, Some("keep"), None, None), 3);
    assert_eq!(count(&conn, by_mark(Some("keep"), None)), 3);
    assert_eq!(count(&conn, by_mark(Some("none"), None)), 0);
    assert_eq!(mark(&conn, &[], Some("reject"), None, None), 0);
    assert_eq!(count(&conn, by_mark(Some("reject"), None)), 0);
}

#[test]
fn facets_report_decision_and_star_counts() {
    let conn = seeded();
    let page = cards(&conn);
    mark(&conn, &[page[0].id], Some("keep"), Some(4), Some("blue"));
    let f = facets(&conn, None);
    let pick = |list: &[Facet], key: &str| list.iter().find(|x| x.key == key).unwrap().count;
    assert_eq!(pick(&f.decisions, "all"), 3);
    assert_eq!(pick(&f.decisions, "keep"), 1);
    assert_eq!(pick(&f.decisions, "reject"), 0);
    assert_eq!(pick(&f.decisions, "none"), 2);
    assert_eq!(f.stars.len(), 6, "星级固定六档，位置不随数据跳动");
    assert_eq!(pick(&f.stars, "0"), 2);
    assert_eq!(pick(&f.stars, "4"), 1);
    assert_eq!(pick(&f.stars, "5"), 0);
    assert_eq!(pick(&f.colors, "blue"), 1);
    assert_eq!((f.processed, f.kept), (1, 1));
}

#[test]
fn lens_focal_and_iso_filters_respect_their_buckets() {
    let conn = seeded();
    conn.execute_batch(
        "UPDATE photos SET lens = 'NIKKOR Z 24-70', focal_len = 24, iso = 400 WHERE path LIKE '%0001.NEF';
         UPDATE photos SET lens = 'NIKKOR Z 70-200', focal_len = 199, iso = 1600 WHERE path LIKE '%0002.NEF';
         UPDATE photos SET lens = NULL, focal_len = 300, iso = 12800 WHERE path LIKE '%0003.NEF';",
    )
    .unwrap();
    let lens = |s: &str| {
        count(
            &conn,
            PairFilter {
                lens: Some(s.to_string()),
                ..Default::default()
            },
        )
    };
    assert_eq!(lens("NIKKOR Z 24-70"), 1);
    assert_eq!(lens(NONE_KEY), 1, "没有镜头信息的该能单独筛出来");
    let focal = |s: &str| {
        count(
            &conn,
            PairFilter {
                focal: Some(s.to_string()),
                ..Default::default()
            },
        )
    };
    assert_eq!(focal("wide"), 0);
    assert_eq!(focal("normal"), 1);
    assert_eq!(focal("tele"), 1);
    assert_eq!(focal("super"), 1);
    let iso = |s: &str| {
        count(
            &conn,
            PairFilter {
                iso: Some(s.to_string()),
                ..Default::default()
            },
        )
    };
    assert_eq!(iso("low"), 0);
    assert_eq!(iso("mid"), 1);
    assert_eq!(iso("high"), 1);
    assert_eq!(iso("veryHigh"), 1);
    let buckets: i64 = ["wide", "normal", "tele", "super"].iter().map(|k| focal(k)).sum();
    assert_eq!(buckets, 3, "所有照片都该落在某一档里");

    let f = facets(&conn, None);
    let counts: Vec<i64> = f.focals.iter().map(|x| x.count).collect();
    assert_eq!(counts, vec![0, 1, 1, 1]);
    let counts: Vec<i64> = f.isos.iter().map(|x| x.count).collect();
    assert_eq!(counts, vec![0, 1, 1, 1]);
}

#[test]
fn photos_that_were_not_judged_have_no_flaw() {
    let conn = seeded();
    let quality = |s: &str| {
        count(
            &conn,
            PairFilter {
                quality: Some(s.to_string()),
                ..Default::default()
            },
        )
    };
    for q in ["blur", "over", "under", "blink"] {
        assert_eq!(quality(q), 0);
    }
    conn.execute_batch(
        "UPDATE photos SET sharpness = 24.9, overexposed = 0.02, underexposed = 0.25, eye_ratio = 0.2 WHERE path LIKE '%0001.NEF';
         UPDATE photos SET sharpness = 25, overexposed = 0.019, underexposed = 0.24, eye_ratio = 0.21 WHERE path LIKE '%0002.NEF';",
    )
    .unwrap();
    for q in ["blur", "over", "under", "blink"] {
        assert_eq!(quality(q), 1, "{q}");
    }
    assert_eq!(quality("unknown"), 3);
    let counts: Vec<i64> = facets(&conn, None).quality.iter().map(|x| x.count).collect();
    assert_eq!(counts, vec![1, 1, 1, 1]);
}

#[test]
fn every_condition_has_as_many_values_as_placeholders() {
    let conn = seeded();
    let text = |s: &str| Some(s.to_string());
    let f = PairFilter {
        pair_state: text("both"),
        camera_serial: text("X'1"),
        day: text("2023-11-14"),
        search: text("'; DROP TABLE photos; --"),
        decision: text("none"),
        stars: Some(9),
        color: text(" RED "),
        sort: None,
        roots: Some(vec!["/shoot".to_string(), "/x".to_string(), "/".to_string()]),
        ids: Some(vec![1, 2, 3]),
        quality: text("blur"),
        lens: text("L"),
        focal: text("tele"),
        iso: text("mid"),
    };
    let (sql, args) = build_where(&f, '/');
    assert_eq!(sql.matches('?').count(), args.len());
    assert!(!sql.contains("DROP"));
    assert_eq!(count(&conn, f), 0);
    let (sql, args) = build_where(&PairFilter::default(), '/');
    assert_eq!((sql.as_str(), args.len()), ("p.is_primary = 1", 0));
    assert_eq!(
        build_where(&in_roots("/a/b/"), '\\').0,
        "p.is_primary = 1 AND (substr(p.path, 1, length(?)) = ?)"
    );
}

#[test]
fn days_come_from_the_camera_or_else_from_the_file() {
    let conn = seeded();
    conn.execute_batch(
        "UPDATE photos SET taken_at_corrected = 1789599000 WHERE path LIKE '%0001.%'",
    )
    .unwrap();
    let day = |s: &str| {
        count(
            &conn,
            PairFilter {
                day: Some(s.to_string()),
                ..Default::default()
            },
        )
    };
    assert_eq!(day("2026-09-16"), 1);
    assert_eq!(day(NONE_KEY), 0);
    assert_eq!(facets(&conn, None).days.len(), 2);
}

#[test]
fn clearing_index_keeps_decisions() {
    let conn = in_memory();
    conn.execute(
        "INSERT INTO photos(path, pair_key) VALUES('/x/DSC_0001.NEF', '/x/DSC_0001')",
        [],
    )
    .unwrap();
    conn.execute(
        "INSERT INTO decisions(pair_key, decision, stars) VALUES('/x/DSC_0001', 'keep', 3)",
        [],
    )
    .unwrap();
    let purge = |c: &Connection, scope: &str| {
        let p = purge_index(scope);
        if p.photos {
            c.execute("DELETE FROM photos", []).unwrap();
        }
        if p.marks {
            c.execute("DELETE FROM decisions", []).unwrap();
        }
    };
    let number = |c: &Connection, sql: &str| -> i64 { c.query_row(sql, [], |r| r.get(0)).unwrap() };

    purge(&conn, "index");
    assert_eq!(
        number(&conn, "SELECT COUNT(*) FROM photos"),
        0,
        "索引应当被清干净"
    );
    assert_eq!(stored(&conn, "/x/DSC_0001"), ("keep".to_string(), 3));

    purge(&conn, "all");
    assert_eq!(number(&conn, "SELECT COUNT(*) FROM decisions"), 0);

    let fresh = in_memory();
    fresh
        .execute(
            "INSERT INTO photos(path, pair_key) VALUES('/y/a.NEF', '/y/a')",
            [],
        )
        .unwrap();
    purge(&fresh, "thumbs");
    assert_eq!(
        number(&fresh, "SELECT COUNT(*) FROM photos"),
        1,
        "只清缩略图时不该碰数据库"
    );
}

#[test]
fn decisions_are_keyed_by_pair_not_by_photo_id() {
    let conn = in_memory();
    let (name, pk): (String, i64) = conn
        .query_row(
            "SELECT name, pk FROM pragma_table_info('decisions') WHERE name = 'pair_key'",
            [],
            |r| Ok((r.get(0)?, r.get(1)?)),
        )
        .expect("decisions 表必须有 pair_key 列");
    assert_eq!(name, "pair_key");
    assert_eq!(pk, 1, "pair_key 必须排在主键第一位");
    let refs: i64 = conn
        .query_row(
            "SELECT COUNT(*) FROM pragma_foreign_key_list('decisions')",
            [],
            |r| r.get(0),
        )
        .unwrap();
    assert_eq!(refs, 0, "decisions 不能有外键指向 photos");
}

#[test]
fn drops_only_the_empty_legacy_table() {
    let conn = in_memory();
    let exists = |c: &Connection| -> i64 {
        c.query_row(
            "SELECT COUNT(*) FROM sqlite_master WHERE type='table' AND name='ratings'",
            [],
            |r| r.get(0),
        )
        .unwrap()
    };
    let clean = |c: &Connection| {
        let rows: Option<i64> = c
            .query_row("SELECT COUNT(*) FROM ratings", [], |r| r.get(0))
            .ok();
        if legacy_table(exists(c), rows) == Legacy::Drop {
            c.execute_batch("DROP TABLE IF EXISTS ratings").unwrap();
        }
    };
    clean(&conn);
    assert_eq!(exists(&conn), 0);
    conn.execute_batch("CREATE TABLE ratings (photo_id INTEGER PRIMARY KEY)")
        .unwrap();
    clean(&conn);
    assert_eq!(exists(&conn), 0, "空的旧表应当被清掉");
    conn.execute_batch("CREATE TABLE ratings (photo_id INTEGER PRIMARY KEY)")
        .unwrap();
    conn.execute("INSERT INTO ratings(photo_id) VALUES(1)", [])
        .unwrap();
    clean(&conn);
    assert_eq!(exists(&conn), 1, "有内容的旧表必须留下");
    assert_eq!(legacy_table(1, None), Legacy::Keep);
    assert_eq!(legacy_table(0, None), Legacy::Absent);
}

#[test]
fn treats_only_sub_page_files_as_remnants() {
    assert!(is_unusable_remnant(Some(0)), "空文件是残骸");
    assert!(is_unusable_remnant(Some(511)), "写了一半的文件是残骸");
    assert!(
        !is_unusable_remnant(Some(512)),
        "够一页就必须保留，宁可改名隔离"
    );
    assert!(!is_unusable_remnant(None));
}

/// Opens a library given as what happens to it; gives the actions in their order.
fn opening(events: &[Event]) -> Vec<Action> {
    let mut phase = Phase::Opening;
    let mut actions = Vec::new();
    for e in events {
        let (next, action) = open_step(phase, *e);
        phase = next;
        actions.push(action);
    }
    actions
}

#[test]
fn readable_libraries_are_refused_not_replaced() {
    assert_eq!(
        opening(&[Event::NotOpened(false), Event::Readable(true)]),
        vec![Action::CheckReadable, Action::Refuse]
    );
    assert_eq!(
        opening(&[Event::NotOpened(true), Event::Cleared(true), Event::Opened]),
        vec![Action::RemoveRemnant, Action::Open, Action::Done]
    );
    assert_eq!(
        opening(&[
            Event::NotOpened(false),
            Event::Readable(false),
            Event::Cleared(false),
            Event::Readable(false),
            Event::PutAside(true),
            Event::Opened,
        ]),
        vec![
            Action::CheckReadable,
            Action::RemoveSidecars,
            Action::CheckReadable,
            Action::Quarantine,
            Action::Open,
            Action::Done
        ]
    );
    assert_eq!(
        open_step(Phase::Quarantining, Event::PutAside(false)),
        (Phase::Settled, Action::NoQuarantine)
    );
    assert_eq!(
        open_step(Phase::Recreating, Event::NotOpened(false)),
        (Phase::Settled, Action::Fail)
    );
    assert!(refusal_text("/x/library.db").contains("表结构"));
}

#[test]
fn files_beside_the_library() {
    assert_eq!(
        sidecar_paths("/d/library.db"),
        vec!["/d/library.db-journal", "/d/library.db-wal", "/d/library.db-shm"]
    );
    assert_eq!(quarantine_name("/d/library.db", 17), "/d/library.db.bad-17");
    assert_eq!(quarantine_name("library.db", 17), "library.db.bad-17");
}

#[test]
fn settings_read_back() {
    let conn = in_memory();
    for on in [true, false] {
        conn.execute(META_SET, ("k", flag_text(on))).unwrap();
        let v: Option<String> = conn.query_row(META_GET, ["k"], |r| r.get(0)).ok();
        assert_eq!(flag_on(&v), on);
    }
    assert!(!flag_on(&None));
}

#[test]
fn clocks_are_set_back() {
    let conn = seeded();
    conn.execute_batch("UPDATE photos SET taken_at = 1000, camera_serial = 'S' WHERE id = 1")
        .unwrap();
    conn.execute(WRITE_OFFSET, ("S", 60i64, 1i64)).unwrap();
    conn.execute(CORRECT_TIMES, []).unwrap();
    let t: i64 = conn
        .query_row("SELECT taken_at_corrected FROM photos WHERE id = 1", [], |r| r.get(0))
        .unwrap();
    assert_eq!(t, 940);
}

#[test]
fn photo_details_and_siblings() {
    let conn = seeded();
    let card = cards(&conn).remove(0);
    let path: String = conn
        .query_row(&detail_sql(), [card.id], |r| r.get(0))
        .unwrap();
    assert_eq!(path, "/shoot/DSC_0001.NEF");
    assert_eq!(
        detail_names(&path),
        ("DSC_0001.NEF".to_string(), "/shoot".to_string())
    );
    assert_eq!(detail_names("/"), ("/".to_string(), String::new()));
    let mut stmt = conn.prepare(SELECT_SIBLINGS).unwrap();
    let others: Vec<String> = stmt
        .query_map((&card.pair_key, card.id), |r| r.get(1))
        .unwrap()
        .map(|r| r.unwrap())
        .collect();
    assert_eq!(others, vec!["/shoot/DSC_0001.JPG"]);
}

#[test]
fn shots_are_counted() {
    let conn = seeded();
    let counts: (i64, i64, i64) = conn
        .query_row(COUNT_PAIRS, [], |r| Ok((r.get(0)?, r.get(1)?, r.get(2)?)))
        .unwrap();
    assert_eq!(counts, (3, 1, 0));
    let failed: i64 = conn.query_row(COUNT_EXIF_FAILED, [], |r| r.get(0)).unwrap();
    assert_eq!(failed, 5);
    // A shot with two RAW files and no JPEG file lacks a file all the same.
    index(&conn, "/shoot/DSC_0004.NEF", 5, 1_700_000_000);
    index(&conn, "/shoot/DSC_0004.DNG", 5, 1_700_000_000);
    index(&conn, "/shoot/DSC_0005.JPG", 5, 1_700_000_000);
    let counts: (i64, i64, i64) = conn
        .query_row(COUNT_PAIRS, [], |r| Ok((r.get(0)?, r.get(1)?, r.get(2)?)))
        .unwrap();
    assert_eq!(counts, (5, 2, 1));
    let f = facets(&conn, None);
    let pick = |key: &str| f.pair_states.iter().find(|x| x.key == key).unwrap().count;
    assert_eq!((pick("rawOnly"), pick("jpgOnly"), pick("orphan")), (2, 1, 3));
}

#[test]
fn counts_agree_with_the_grid() {
    let conn = seeded();
    index(&conn, "/other/DSC_0009.JPG", 5, 1_700_000_000);
    let all = cards(&conn);
    mark(&conn, &[all[0].id], Some("keep"), Some(4), Some("red"));
    mark(&conn, &[all[1].id], Some("reject"), None, None);
    for roots in [None, Some(vec!["/shoot".to_string()])] {
        let f = facets(&conn, roots.clone());
        let base = PairFilter {
            roots,
            ..PairFilter::default()
        };
        assert_eq!(f.total, count(&conn, base.clone()));
        let sum = |v: &[Facet]| v.iter().map(|x| x.count).sum::<i64>();
        assert_eq!(sum(&f.stars), f.total);
        assert_eq!(sum(&f.decisions[1..]), f.total);
        assert_eq!(sum(&f.cameras), f.total);
        assert_eq!(sum(&f.lenses), f.total);
        let key = |x: &Facet| Some(x.key.clone());
        for x in &f.decisions[1..] {
            let by = PairFilter { decision: key(x), ..base.clone() };
            assert_eq!(x.count, count(&conn, by));
        }
        for x in &f.stars {
            let by = PairFilter { stars: x.key.parse().ok(), ..base.clone() };
            assert_eq!(x.count, count(&conn, by));
        }
        for x in &f.colors {
            let by = PairFilter { color: key(x), ..base.clone() };
            assert_eq!(x.count, count(&conn, by));
        }
        for x in &f.cameras {
            let by = PairFilter { camera_serial: key(x), ..base.clone() };
            assert_eq!(x.count, count(&conn, by));
        }
        for x in &f.days {
            let by = PairFilter { day: key(x), ..base.clone() };
            assert_eq!(x.count, count(&conn, by));
        }
        for x in &f.isos {
            let by = PairFilter { iso: key(x), ..base.clone() };
            assert_eq!(x.count, count(&conn, by));
        }
    }
}

#[test]
fn pages_make_up_the_list() {
    let conn = seeded();
    let f = PairFilter::default();
    let all: Vec<i64> = cards(&conn).iter().map(|c| c.id).collect();
    let mut joined: Vec<i64> = Vec::new();
    for k in 0..2 {
        joined.extend(page(&conn, &f, 2, 2 * k).iter().map(|c| c.id));
    }
    assert_eq!(joined, all);
    assert!(page(&conn, &f, 2, 3).is_empty());
}

#[test]
fn choices_of_what_to_scan() {
    let dirs = |v: &[&str]| Some(v.iter().map(|s| s.to_string()).collect::<Vec<String>>());
    assert_eq!(scan_scope("/p", None), (vec!["/p".to_string()], None));
    assert_eq!(scan_scope("/p", dirs(&[])), (vec!["/p".to_string()], Some(1)));
    assert_eq!(
        scan_scope("/p", dirs(&["/p/a", "/p/b"])),
        (vec!["/p/a".to_string(), "/p/b".to_string()], None)
    );
}

#[test]
fn long_lists_are_cut_into_chunks() {
    assert_eq!(chunk_bounds(0, 400), vec![]);
    assert_eq!(chunk_bounds(400, 400), vec![(0, 400)]);
    assert_eq!(chunk_bounds(1000, 400), vec![(0, 400), (400, 800), (800, 1000)]);
    let keys = vec!["b".to_string(), "a".to_string(), "b".to_string(), "é".to_string()];
    assert_eq!(distinct_keys(keys), vec!["a", "b", "é"]);
}
