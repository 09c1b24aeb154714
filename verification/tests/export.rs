use sp::export::{
    attach_files, candidate_name, copies_files, copy_name, count_files, csv_field, csv_row,
    export_template, manifest_csv, plan_target, render_name, split_datetime, split_ext, ExportFile,
    ExportPair, ExportRun, FileRow, FileScope, Found, NameCtx, Outcome, Plan,
};

/// The number of fields of a CSV row.
fn count_fields(line: &str) -> usize {
    let mut n = 1;
    let mut in_quotes = false;
    let mut chars = line.chars();
    while let Some(c) = chars.next() {
        match c {
            '"' if !in_quotes => in_quotes = true,
            '"' if in_quotes => {
                if chars.clone().next() == Some('"') {
                    chars.next();
                } else {
                    in_quotes = false;
                }
            }
            ',' if !in_quotes => n += 1,
            _ => {}
        }
    }
    n
}

#[test]
fn csv_escapes_commas_and_quotes() {
    assert_eq!(csv_field("plain"), "plain");
    assert_eq!(csv_field("a,b"), "\"a,b\"");
    assert_eq!(csv_field("he said \"hi\""), "\"he said \"\"hi\"\"\"");
    assert_eq!(csv_field("line1\nline2"), "\"line1\nline2\"");
}

#[test]
fn manifest_rows_line_up_with_the_header() {
    let pair = ExportPair {
        pair_key: "/tmp/a/dsc_0001".into(),
        decision: "keep".into(),
        stars: 3,
        taken_at_text: Some("2026-09-16 11:20:30".into()),
        camera_model: Some("NIKON Z50_2".into()),
        lens: Some("NIKKOR Z 24-120mm".into()),
        focal_len: Some(format!("{:.1}", 50.0)),
        aperture: Some(format!("{:.1}", 2.8)),
        shutter: Some("1/500".into()),
        iso: Some(200),
        files: vec![
            ExportFile {
                path: "/tmp/a/MY, SHOT \"x\".NEF".into(),
                size: 100,
            },
            ExportFile {
                path: "/tmp/a/b.JPG".into(),
                size: 50,
            },
        ],
    };
    let missing = ExportPair {
        pair_key: "/tmp/a/ghost".into(),
        decision: "none".into(),
        stars: 0,
        taken_at_text: None,
        camera_model: None,
        lens: None,
        focal_len: None,
        aperture: None,
        shutter: None,
        iso: None,
        files: Vec::new(),
    };

    let csv = manifest_csv(&vec![pair, missing]);
    let body = csv.trim_start_matches('\u{feff}');
    let mut lines = body.lines();
    let header_cols = count_fields(lines.next().unwrap());
    assert_eq!(header_cols, 11);

    for line in lines {
        assert_eq!(count_fields(line), header_cols, "列数对不上：{line}");
    }

    assert!(body.contains("(文件缺失)"));
    assert!(
        body.contains("\"MY, SHOT \"\"x\"\".NEF\""),
        "带逗号引号的文件名要正确转义"
    );
    assert!(body.starts_with("决定,星级,文件名,拍摄时间,机身,镜头,焦距mm,光圈,快门,ISO,完整路径\n"));
    assert!(body.contains(
        "保留,3,b.JPG,2026-09-16 11:20:30,NIKON Z50_2,NIKKOR Z 24-120mm,50.0,2.8,1/500,200,/tmp/a/b.JPG\n"
    ));
    assert!(body.ends_with("未标记,0,(文件缺失),,,,,,,,/tmp/a/ghost\n"));
}

#[test]
fn render_name_fills_variables() {
    let ctx = NameCtx {
        stem: "DSC_0001",
        ext: "NEF",
        date: "20260916",
        time: "102030",
        seq: 7,
        stars: 3,
        camera: "NIKON Z 50II",
        pair: "key-1",
    };
    assert_eq!(render_name("{name}", &ctx), "DSC_0001.NEF");
    assert_eq!(
        render_name("{date}_{seq}_{name}", &ctx),
        "20260916_0007_DSC_0001.NEF"
    );
    assert_eq!(render_name("{stars}星_{pair}", &ctx), "3星_key-1.NEF");
    assert!(render_name("{date}-{seq}", &ctx).ends_with(".NEF"));
    // An extension in another letter case counts.
    assert_eq!(render_name("{name}.nef", &ctx), "DSC_0001.nef");
    assert_eq!(render_name("{name}.{ext}", &ctx), "DSC_0001.NEF");
    assert_eq!(render_name("{nope}{time}", &ctx), "{nope}102030.NEF");
}

#[test]
fn render_name_cleans_illegal_chars_and_empty_results() {
    let ctx = NameCtx {
        stem: "a/b",
        ext: "nef",
        date: "",
        time: "",
        seq: 1,
        stars: 0,
        camera: "NIKON: Z/50",
        pair: "k",
    };
    let out = render_name("{camera}_{name}", &ctx);
    assert!(!out.contains('/') && !out.contains(':'));
    assert_ne!(render_name("", &ctx), ".nef");
    // The name of the original is cleaned too.
    assert_eq!(render_name("", &ctx), "a_b.nef");
    assert_eq!(
        render_name("", &NameCtx { ext: "n:f", ..ctx }),
        "a_b.n_f"
    );
    assert_eq!(render_name("ÄÖ.NEF", &ctx), "ÄÖ.NEF");
}

#[test]
fn file_scope_picks_only_the_asked_kind() {
    assert!(FileScope::Both.keeps("raw") && FileScope::Both.keeps("jpeg"));
    assert!(FileScope::Raw.keeps("raw") && !FileScope::Raw.keeps("jpeg"));
    assert!(FileScope::Jpeg.keeps("jpeg") && !FileScope::Jpeg.keeps("raw"));
    assert_eq!(FileScope::parse("whatever"), FileScope::Both);
    assert_eq!(FileScope::parse("raw"), FileScope::Raw);
    assert_eq!(FileScope::parse("jpeg"), FileScope::Jpeg);
}

/// Follows the plan in a directory given by its files.
fn target(dir: &[(String, u64)], name: &str, size: u64) -> Option<String> {
    let mut n = 0;
    loop {
        let cand = candidate_name(name, n);
        let found = match dir.iter().find(|f| f.0 == cand) {
            Some(f) => Found::File(f.1),
            None => Found::Nothing,
        };
        match plan_target(n, found, size) {
            Plan::Use => return Some(cand),
            Plan::Skip | Plan::Full => return None,
            Plan::Next => n += 1,
        }
    }
}

#[test]
fn plan_target_is_repeatable_and_never_overwrites() {
    let mut dir: Vec<(String, u64)> = Vec::new();
    let first = target(&dir, "A.NEF", 10).unwrap();
    assert_eq!(first, "A.NEF");
    dir.push((first, 10));

    assert!(target(&dir, "A.NEF", 10).is_none());

    let second = target(&dir, "A.NEF", 11).unwrap();
    assert_eq!(second, "A-1.NEF");
    dir.push((second, 11));
    assert!(target(&dir, "A.NEF", 11).is_none());
    assert_eq!(target(&dir, "A.NEF", 12).unwrap(), "A-2.NEF");
}

#[test]
fn exports_of_several_files_are_repeatable() {
    let files = [("A.NEF", 1), ("A.NEF", 2), ("A-1.NEF", 3), ("B", 1), ("A.NEF", 1)];
    let mut dir: Vec<(String, u64)> = Vec::new();
    for (name, size) in files {
        if let Some(t) = target(&dir, name, size) {
            dir.push((t, size));
        }
    }
    let names: Vec<&str> = dir.iter().map(|f| f.0.as_str()).collect();
    assert_eq!(names, vec!["A.NEF", "A-1.NEF", "A-1-1.NEF", "B"]);
    assert!(files.iter().all(|(name, size)| target(&dir, name, *size).is_none()));
}

#[test]
fn candidates_keep_the_extension() {
    assert_eq!(candidate_name("a.b.NEF", 3), "a.b-3.NEF");
    assert_eq!(candidate_name("README", 1), "README-1");
    assert_eq!(candidate_name(".hidden", 1), ".hidden-1");
    assert_eq!(candidate_name("a.", 2), "a-2.");
    // After the last name a file has no place. It is not taken for present.
    assert_eq!(plan_target(999, Found::Unreadable, 1), Plan::Full);
    assert_eq!(plan_target(999, Found::File(2), 1), Plan::Full);
    assert_eq!(plan_target(999, Found::File(1), 1), Plan::Skip);
    assert_eq!(plan_target(999, Found::Nothing, 1), Plan::Use);
    assert_eq!(plan_target(998, Found::Unreadable, 1), Plan::Next);
}

#[test]
fn dates_and_times_are_taken_apart() {
    let d = |s: &str| split_datetime(Some(s));
    assert_eq!(
        d("2026-09-16 10:20:37"),
        ("20260916".to_string(), "102037".to_string())
    );
    assert_eq!(d("  2026-09-16 10:20:37  "), d("2026-09-16 10:20:37"));
    assert_eq!(d("2026-09-16"), (String::new(), String::new()));
    assert_eq!(split_datetime(None), (String::new(), String::new()));
    // A character must not be cut apart.
    assert_eq!(d("123456789二1234567890"), (String::new(), String::new()));
    assert_eq!(d("12345678901234567二"), (String::new(), String::new()));
    assert_eq!(
        d("二026-09-16 10:20:37"),
        ("02609".to_string(), "61020".to_string())
    );
    assert_eq!(
        split_ext("/a/b/DSC.tar.NEF"),
        ("DSC.tar".to_string(), "NEF".to_string())
    );
    assert_eq!(split_ext("/a/b/DSC"), ("DSC".to_string(), String::new()));
    assert_eq!(split_ext("/"), (String::new(), String::new()));
}

fn pair(key: &str) -> ExportPair {
    ExportPair {
        pair_key: key.to_string(),
        decision: "keep".to_string(),
        stars: 5,
        taken_at_text: Some("2026-09-16 10:20:37".to_string()),
        camera_model: Some("Z50".to_string()),
        lens: None,
        focal_len: None,
        aperture: None,
        shutter: None,
        iso: None,
        files: Vec::new(),
    }
}

#[test]
fn files_are_attached_in_order() {
    let row = |pair: usize, path: &str, kind: &str| FileRow {
        pair,
        path: path.to_string(),
        size: 1,
        kind: kind.to_string(),
    };
    let rows = vec![
        row(1, "/b/2.NEF", "raw"),
        row(0, "/a/1.NEF", "raw"),
        row(0, "/a/1.JPG", "jpeg"),
        row(1, "/b/1.JPG", "jpeg"),
    ];
    let both = attach_files(vec![pair("x"), pair("y")], &rows, FileScope::Both);
    let paths: Vec<Vec<&str>> = both
        .iter()
        .map(|p| p.files.iter().map(|f| f.path.as_str()).collect())
        .collect();
    assert_eq!(
        paths,
        vec![vec!["/a/1.JPG", "/a/1.NEF"], vec!["/b/1.JPG", "/b/2.NEF"]]
    );
    assert_eq!(both[0].pair_key, "x");
    assert_eq!(count_files(&both), Some(4));
    let raw = attach_files(vec![pair("x"), pair("y"), pair("z")], &rows, FileScope::Raw);
    assert_eq!(count_files(&raw), Some(2));
    assert!(raw[2].files.is_empty());
}

#[test]
fn copies_are_named_by_the_template() {
    let p = pair("/a/dsc_1");
    let f = ExportFile {
        path: "/a/DSC_1.NEF".to_string(),
        size: 9,
    };
    assert_eq!(
        copy_name("{date}-{time}-{seq}-{camera}-{name}", &p, &f, 0),
        "20260916-102037-0001-Z50-DSC_1.NEF"
    );
    assert_eq!(copy_name("{pair}", &p, &f, 3), "_a_dsc_1.NEF");
    assert_eq!(export_template(None), "{name}");
    assert_eq!(export_template(Some("  ")), "{name}");
    assert_eq!(export_template(Some(" {seq} ")), "{seq}");
    assert!(copies_files("copy") && !copies_files("list"));
}

#[test]
fn exports_are_counted() {
    let mut run = ExportRun::start(34);
    let mut reports = Vec::new();
    for i in 0..34 {
        let o = if i % 3 == 0 {
            Outcome::Copied(10)
        } else if i % 3 == 1 {
            Outcome::Skipped
        } else {
            Outcome::Failed
        };
        if let Some(p) = run.record(o) {
            assert_eq!((p.phase, p.total), ("copying", 34));
            reports.push(p.done);
        }
    }
    assert_eq!(reports, vec![32, 34]);
    assert_eq!(
        (run.copied, run.skipped, run.failed, run.bytes),
        (12, 11, 11, 120)
    );
}

#[test]
fn rows_end_with_a_line_break() {
    assert_eq!(
        csv_row(&vec!["a".to_string(), "b,c".to_string(), String::new()]),
        "a,\"b,c\",\n"
    );
}

/// Reads a CSV row without its line break.
fn read_row(line: &str) -> Vec<String> {
    let mut out = vec![String::new()];
    let mut quoted = false;
    let chars: Vec<char> = line.chars().collect();
    let mut i = 0;
    while i < chars.len() {
        let c = chars[i];
        if quoted && c == '"' && chars.get(i + 1) == Some(&'"') {
            out.last_mut().unwrap().push('"');
            i += 1;
        } else if c == '"' {
            quoted = !quoted;
        } else if c == ',' && !quoted {
            out.push(String::new());
        } else {
            out.last_mut().unwrap().push(c);
        }
        i += 1;
    }
    out
}

#[test]
fn rows_read_back_as_they_were() {
    let fields: Vec<String> = ["", "a,b", "\"", "\"\",\"", "line\nbreak\r", "plain", "，"]
        .iter()
        .map(|s| s.to_string())
        .collect();
    let row = csv_row(&fields);
    assert_eq!(read_row(row.strip_suffix('\n').unwrap()), fields);
}
