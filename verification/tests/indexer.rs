use sp::indexer::{
    clock_error_of, corrected_time, first_look, fingerprint_of, is_candidate, parse_one,
    scan_refusal, stale_ids, BodyOffset, DirWalk, ExifLite, FileStat, FirstLook, KnownFile, Parsed,
    ScanPhase, ScanRun, StoredPath,
};
use sp::paths::{data_dir, db_path, thumbs_dir, BaseDirs, NoDataDir, Platform};

fn stat(file_size: i64, mtime: i64) -> FileStat {
    FileStat { file_size, mtime }
}

#[test]
fn unchanged_files_skip_content_read() {
    let known = KnownFile {
        fingerprint: "fp".to_string(),
        file_size: 10,
        mtime: 20,
    };
    assert_eq!(first_look(Some(&known), Some(stat(10, 20))), FirstLook::Unchanged);
    assert_eq!(
        first_look(Some(&known), Some(stat(11, 20))),
        FirstLook::Read(stat(11, 20))
    );
    assert_eq!(
        first_look(Some(&known), Some(stat(10, 21))),
        FirstLook::Read(stat(10, 21))
    );
    assert_eq!(first_look(None, Some(stat(10, 20))), FirstLook::Read(stat(10, 20)));
    assert_eq!(first_look(Some(&known), None), FirstLook::Failed);
}

#[test]
fn files_are_judged_by_their_fingerprint() {
    let s = stat(4, 9);
    let known = KnownFile {
        fingerprint: fingerprint_of(s, b"head"),
        file_size: 1,
        mtime: 1,
    };
    assert!(matches!(
        parse_one("/a/DSC.NEF", Some(&known), s, Some(b"head"), None),
        Parsed::Unchanged(p) if p == "/a/DSC.NEF"
    ));
    assert!(matches!(
        parse_one("/a/DSC.NEF", None, s, None, None),
        Parsed::Failed(p) if p == "/a/DSC.NEF"
    ));
    match parse_one("/A/DSC.NEF", Some(&known), s, Some(b"other"), None) {
        Parsed::Fresh(row) => {
            assert_eq!(row.pair_key, "/a/dsc");
            assert_eq!(row.file_kind, "raw");
            assert_eq!((row.file_size, row.mtime, row.exif_ok), (4, 9, 0));
            assert_eq!(row.fingerprint, fingerprint_of(s, b"other"));
            assert_eq!(row.fingerprint.len(), 32);
        }
        _ => panic!("new content has to be recorded"),
    }
    match parse_one("/a/x.txt", None, s, Some(b""), Some(ExifLite::default())) {
        Parsed::Fresh(row) => assert_eq!((row.file_kind.as_str(), row.exif_ok), ("other", 1)),
        _ => panic!("new content has to be recorded"),
    }
}

#[test]
fn candidates_are_pictures() {
    assert!(is_candidate("/a/b.NEF") && is_candidate("b.jpeg") && is_candidate("b.PNG"));
    assert!(!is_candidate("/a/b.txt") && !is_candidate("/a/nef"));
}

#[test]
fn reports_progress_through_phases() {
    let mut run = ScanRun::start(450);
    let mut seen = Vec::new();
    let mut reports = Vec::new();
    let mut written = 0;
    for i in 0..450 {
        let path = format!("/p/{i}.NEF");
        let parsed = if i % 10 == 0 {
            Parsed::Unchanged(path)
        } else if i % 10 == 1 {
            Parsed::Failed(path)
        } else {
            parse_one(&path, None, stat(1, 1), Some(b"x"), None)
        };
        let turn = run.accept(parsed, i % 2 == 0);
        seen.push(turn.seen);
        if turn.flush {
            let (rows, p) = run.flush();
            assert_eq!(rows.len(), 200);
            written += rows.len();
            reports.push((p.phase, p.done, p.total));
        }
        if let Some(p) = turn.progress {
            reports.push((p.phase, p.done, p.total));
        }
    }
    let (rows, _) = run.flush();
    written += rows.len();
    assert_eq!(reports, vec![("writing", 200, 450), ("parsing", 250, 450)]);
    let mut phases = Vec::new();
    let mut phase = Some(ScanPhase::Walking);
    while let Some(p) = phase {
        phases.push(p.report(450).phase);
        phase = p.next(450);
    }
    assert_eq!(phases.first().copied(), Some("walking"));
    assert!(phases.contains(&"parsing"), "应报告解析进度：{phases:?}");
    assert!(phases.contains(&"writing"), "应报告写入进度：{phases:?}");
    assert_eq!(phases.last().copied(), Some("stats"));
    assert_eq!(written, 360);
    let s = run.summary;
    assert_eq!((s.scanned, s.unchanged, s.failed), (450, 45, 45));
    assert_eq!((s.inserted, s.updated), (180, 180));
    assert_eq!(seen.len(), 450);
}

#[test]
fn only_missing_files_are_dropped() {
    let row = |id: i64, path: &str, seen: bool| StoredPath {
        id,
        path: path.to_string(),
        seen,
    };
    let rows = vec![
        row(1, "/a/1.NEF", true),
        row(2, "/a/2.NEF", false),
        row(3, "/ab/3.NEF", false),
        row(4, "/a/sub/4.NEF", false),
    ];
    assert_eq!(stale_ids(4, &rows, &vec!["/a".to_string()]), vec![2, 4]);
    assert_eq!(stale_ids(4, &rows, &vec![]), Vec::<i64>::new());
    assert_eq!(
        stale_ids(4, &rows, &vec!["/x".to_string(), "/ab/".to_string()]),
        vec![3]
    );
    assert_eq!(stale_ids(0, &rows, &vec!["/a".to_string()]), Vec::<i64>::new());
}

#[test]
fn scans_need_a_directory() {
    let roots = vec!["/a".to_string(), "/b".to_string()];
    assert_eq!(scan_refusal(&roots, &vec![false, true]), None);
    assert_eq!(
        scan_refusal(&roots, &vec![false, false]).as_deref(),
        Some("目录不存在或不是文件夹：/a")
    );
    assert_eq!(
        scan_refusal(&vec![], &vec![]).as_deref(),
        Some("目录不存在或不是文件夹：")
    );
}

#[test]
fn fast_clocks_are_set_back() {
    let offsets = vec![
        BodyOffset {
            serial: "A".to_string(),
            seconds: 30,
        },
        BodyOffset {
            serial: "B".to_string(),
            seconds: -5,
        },
    ];
    let exif = |serial: Option<&str>| ExifLite {
        taken_at: Some(1000),
        camera_serial: serial.map(|s| s.to_string()),
        ..ExifLite::default()
    };
    assert_eq!(clock_error_of(&exif(Some("A")), &offsets), 30);
    assert_eq!(corrected_time(&exif(Some("A")), &offsets), Some(970));
    assert_eq!(corrected_time(&exif(Some("B")), &offsets), Some(1005));
    assert_eq!(corrected_time(&exif(Some("C")), &offsets), Some(1000));
    assert_eq!(corrected_time(&exif(None), &offsets), Some(1000));
    assert_eq!(corrected_time(&ExifLite::default(), &offsets), None);
}

fn tree(max_depth: usize, max_nodes: usize) -> Vec<(String, usize, bool)> {
    let kids = |p: &str| -> Vec<String> {
        let names: &[&str] = match p {
            "/r" => &["/r/b", "/r/a"],
            "/r/a" => &["/r/a/x"],
            "/r/a/x" => &["/r/a/x/y"],
            "/r/b" => &["/r/b/z"],
            _ => &[],
        };
        names.iter().map(|s| s.to_string()).collect()
    };
    let mut walk = DirWalk::start("/r", max_depth, max_nodes);
    while let Some(dir) = walk.next() {
        walk.visit(kids(&dir));
    }
    walk.found
        .iter()
        .map(|n| (n.name.clone(), n.depth, n.has_children))
        .collect()
}

#[test]
fn directories_are_listed_level_by_level() {
    let node = |n: &str, d: usize, k: bool| (n.to_string(), d, k);
    assert_eq!(
        tree(2, 100),
        vec![
            node("r", 0, true),
            node("a", 1, true),
            node("b", 1, true),
            node("x", 2, true),
            node("z", 2, false)
        ]
    );
    assert_eq!(tree(0, 100), vec![node("r", 0, true)]);
    assert_eq!(tree(9, 3).len(), 3);
    assert_eq!(tree(9, 100).len(), 6);
}

#[test]
fn data_goes_where_the_system_wants_it() {
    let dirs = |a: Option<&str>, h: Option<&str>, x: Option<&str>| BaseDirs {
        appdata: a.map(|s| s.to_string()),
        home: h.map(|s| s.to_string()),
        xdg_data_home: x.map(|s| s.to_string()),
    };
    let all = dirs(Some("C:/Users/me/AppData"), Some("/home/me"), Some("/xdg/"));
    assert_eq!(
        data_dir(Platform::Windows, &all).as_deref(),
        Ok("C:/Users/me/AppData/SP")
    );
    assert_eq!(
        data_dir(Platform::MacOs, &all).as_deref(),
        Ok("/home/me/Library/Application Support/SP")
    );
    assert_eq!(data_dir(Platform::Other, &all).as_deref(), Ok("/xdg/SP"));
    assert_eq!(
        data_dir(Platform::Other, &dirs(None, Some("/home/me"), None)).as_deref(),
        Ok("/home/me/.local/share/SP")
    );
    let none = dirs(None, None, None);
    assert_eq!(data_dir(Platform::Windows, &none), Err(NoDataDir::NoAppData));
    assert_eq!(data_dir(Platform::MacOs, &none), Err(NoDataDir::NoHome));
    assert_eq!(data_dir(Platform::Other, &none), Err(NoDataDir::NoneAtAll));
    assert_eq!(NoDataDir::NoHome.message(), "找不到 HOME 环境变量");
    assert_eq!(db_path("/d"), "/d/library.db");
    assert_eq!(thumbs_dir("/d"), "/d/thumbs");
}

#[test]
fn a_second_scan_changes_nothing() {
    let s = stat(4, 9);
    let first = match parse_one("/a/DSC.NEF", None, s, Some(b"head"), None) {
        Parsed::Fresh(row) => row,
        _ => panic!("new content has to be recorded"),
    };
    let known = KnownFile {
        fingerprint: first.fingerprint,
        file_size: first.file_size,
        mtime: first.mtime,
    };
    assert_eq!(first_look(Some(&known), Some(s)), FirstLook::Unchanged);
    let mut run = ScanRun::start(2);
    for name in ["/a/DSC.NEF", "/a/DSC.JPG"] {
        assert!(!run.accept(Parsed::Unchanged(name.to_string()), true).flush);
    }
    assert!(run.flush().0.is_empty());
    let sum = run.summary;
    assert_eq!((sum.scanned, sum.unchanged), (2, 2));
    assert_eq!((sum.inserted, sum.updated, sum.removed, sum.failed), (0, 0, 0, 0));
    let rows = vec![StoredPath {
        id: 1,
        path: "/a/DSC.NEF".to_string(),
        seen: true,
    }];
    assert!(stale_ids(2, &rows, &vec!["/a".to_string()]).is_empty());
}

#[test]
fn phases_follow_each_other() {
    let names = |total: usize| {
        let mut phase = ScanPhase::Walking;
        let mut out = vec![phase.report(total).phase];
        while let Some(next) = phase.next(total) {
            phase = next;
            out.push(phase.report(total).phase);
        }
        out
    };
    assert_eq!(names(0), vec!["walking", "stats"]);
    assert_eq!(names(7), vec!["walking", "parsing", "writing", "stats"]);
    let p = ScanPhase::Writing.report(7);
    assert_eq!((p.done, p.total), (7, 7));
}
