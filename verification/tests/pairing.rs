use sp::filepath::{extension, file_name, file_stem, join_path, parent, path_under};
use sp::pairing::{classify, ext_lower, pair_key, pick_primary, FileKind, Member};

#[test]
fn nef_and_jpg_share_a_pair_key() {
    let dir = "/photos/2026-shoot";
    let a = pair_key(&join_path(dir, "DSC_0001.NEF")).unwrap();
    let b = pair_key(&join_path(dir, "DSC_0001.JPG")).unwrap();
    assert_eq!(a, b);
}

#[test]
fn pair_key_is_case_insensitive() {
    let dir = "/photos/Shoot";
    let a = pair_key(&join_path(dir, "DSC_0001.nef")).unwrap();
    let b = pair_key(&join_path(dir, "dsc_0001.NEF")).unwrap();
    assert_eq!(a, b);
}

#[test]
fn different_shots_do_not_collide() {
    let dir = "/photos/2026-shoot";
    assert_ne!(
        pair_key(&join_path(dir, "DSC_0001.NEF")).unwrap(),
        pair_key(&join_path(dir, "DSC_0002.NEF")).unwrap()
    );
}

#[test]
fn same_name_in_different_dirs_do_not_collide() {
    assert_ne!(
        pair_key("/a/DSC_0001.NEF").unwrap(),
        pair_key("/b/DSC_0001.NEF").unwrap()
    );
}

#[test]
fn classify_knows_nikon_formats() {
    assert_eq!(classify("NEF"), Some(FileKind::Raw));
    assert_eq!(classify("nrw"), Some(FileKind::Raw));
    assert_eq!(classify("JPG"), Some(FileKind::Jpeg));
    assert_eq!(classify("jpeg"), Some(FileKind::Jpeg));
    assert!(classify("txt").is_none());
}

#[test]
fn pair_key_has_the_stored_form() {
    assert_eq!(
        pair_key("/Photos/Trip/DSC_0001.NEF").as_deref(),
        Some("/photos/trip/dsc_0001")
    );
    assert_eq!(pair_key("/DSC_1.JPG").as_deref(), Some("/dsc_1"));
    assert_eq!(pair_key("DSC_1.JPG").as_deref(), Some("/dsc_1"));
    assert_eq!(pair_key("/"), None);
    assert_eq!(pair_key("/photos/.."), None);
}

#[test]
fn kinds_have_stored_names() {
    assert_eq!(FileKind::Raw.as_str(), "raw");
    assert_eq!(FileKind::Jpeg.as_str(), "jpeg");
    assert_eq!(FileKind::Other.as_str(), "other");
    assert_eq!(classify("HEIC"), Some(FileKind::Other));
    assert_eq!(ext_lower("/a/b.NEF"), "nef");
    assert_eq!(ext_lower("/a/b"), "");
}

#[test]
fn paths_follow_the_usual_rules() {
    // The same questions to the standard library give the same answers.
    for p in [
        "/a/b.NEF", "a", "/", "", ".", "..", "a/..", "a/.", "./b", "a//b", "/a/b/", "/.x", "x.",
        "/a/./b.c.d", "//a", "a/b/../c", "照片/一.nef", "./././b", "/./a",
    ] {
        let std_path = std::path::Path::new(p);
        assert_eq!(
            file_name(p).as_deref(),
            std_path.file_name().and_then(|s| s.to_str()),
            "name of {p:?}"
        );
        assert_eq!(
            parent(p).as_deref(),
            std_path.parent().and_then(|s| s.to_str()),
            "parent of {p:?}"
        );
        assert_eq!(
            file_stem(p).as_deref(),
            std_path.file_stem().and_then(|s| s.to_str()),
            "stem of {p:?}"
        );
        assert_eq!(
            extension(p).as_deref(),
            std_path.extension().and_then(|s| s.to_str()),
            "extension of {p:?}"
        );
    }
}

#[test]
fn directories_are_matched_by_whole_names() {
    for (p, d) in [
        ("/x/A/1.NEF", "/x/A"),
        ("/x/AB/1.NEF", "/x/A"),
        ("/x/A", "/x/A/"),
        ("/x/A/./b", "/x//A"),
        ("x/A", "/x"),
        ("/x", ""),
        ("./a/b", "./a"),
        ("./a/b", "a"),
        ("/", "/"),
    ] {
        assert_eq!(
            path_under(p, d),
            std::path::Path::new(p).starts_with(d),
            "{p:?} under {d:?}"
        );
    }
}

#[test]
fn raw_stands_for_its_pair() {
    let m = |id: i64, is_raw: bool| Member { id, is_raw };
    assert_eq!(pick_primary(&vec![]), None);
    assert_eq!(pick_primary(&vec![m(1, false), m(2, true)]), Some(2));
    assert_eq!(pick_primary(&vec![m(9, true), m(4, true), m(1, false)]), Some(4));
    assert_eq!(pick_primary(&vec![m(9, false), m(4, false)]), Some(4));
}
