use sp::datetime::{civil_to_epoch, parse_exif_datetime};

#[test]
fn parses_exif_datetime() {
    // 2026-09-16 10:12:44 UTC
    assert_eq!(parse_exif_datetime("2026:09:16 10:12:44"), Some(1789553564));
}

#[test]
fn rejects_garbage_datetime() {
    assert_eq!(parse_exif_datetime("0000:00:00 00:00:00"), None);
    assert_eq!(parse_exif_datetime("not a date"), None);
}

#[test]
fn known_moments() {
    assert_eq!(civil_to_epoch(1970, 1, 1, 0, 0, 0), 0);
    assert_eq!(civil_to_epoch(2000, 2, 29, 12, 0, 0), 951825600);
    assert_eq!(civil_to_epoch(2000, 3, 1, 0, 0, 0), 951868800);
    assert_eq!(civil_to_epoch(1900, 1, 1, 0, 0, 0), -2208988800);
    assert_eq!(civil_to_epoch(-1, 12, 31, 23, 59, 59), -62167219201);
}

#[test]
fn loose_texts_are_read_as_far_as_they_go() {
    assert_eq!(parse_exif_datetime("  2026:09:16 10:12  "), Some(1789553520));
    assert_eq!(parse_exif_datetime("2026:09:16 10:12:xx"), Some(1789553520));
    assert_eq!(parse_exif_datetime("2026:09:16:99 10:12:44:77"), Some(1789553564));
    assert_eq!(parse_exif_datetime("2026:09:16 10"), None);
    assert_eq!(parse_exif_datetime("2026:13:16 10:12:44"), None);
    assert_eq!(parse_exif_datetime("2026:09:32 10:12:44"), None);
    assert_eq!(parse_exif_datetime("1899:09:16 10:12:44"), None);
    assert_eq!(parse_exif_datetime("+2026:+09:16 -1:12:44"), Some(1789513964));
    assert_eq!(parse_exif_datetime("9223372036854775807:01:01 00:00:00"), None);
    assert_eq!(parse_exif_datetime("9223372036854775808:01:01 00:00:00"), None);
}
