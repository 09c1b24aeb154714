use sp::exif_detail::{
    detail_items, focus_text, gps, insert_focus, lookup, max_aperture_value, read_full, trim_fraction, trim_num,
    ExifItem, FloatTexts, Table,
};
use sp::exif_doc::{read_doc, ExifDoc, ExifError, ExifField, ExifValue, Ratio, TagGroup};
use sp::indexer::{lite_of, read_exif, Shutter};

#[test]
fn trims_trailing_zeros_but_keeps_digits() {
    assert_eq!(trim_num(Ratio::Unsigned(35, 1), 1), "35");
    assert_eq!(trim_num(Ratio::Unsigned(3, 2), 2), "1.5");
    assert_eq!(trim_num(Ratio::Unsigned(333, 1000), 2), "0.33");
}

#[test]
fn enum_lookup_falls_back_to_the_raw_number() {
    assert_eq!(lookup(Table::ExposureProgram, 3), "光圈优先");
    assert_eq!(lookup(Table::ExposureProgram, 77), "77");
}

const T_ASCII: u16 = 2;
const T_SHORT: u16 = 3;
const T_LONG: u16 = 4;
const T_RATIONAL: u16 = 5;
const T_SRATIONAL: u16 = 10;
const T_UNDEFINED: u16 = 7;

fn build_ifd(entries: &[(u16, u16, Vec<u8>)], self_offset: u32) -> Vec<u8> {
    let n = entries.len() as u16;
    let data_start = self_offset + 2 + 12 * n as u32 + 4;
    let mut out = Vec::new();
    out.extend_from_slice(&n.to_le_bytes());
    let mut data: Vec<u8> = Vec::new();
    for (tag, typ, val) in entries {
        out.extend_from_slice(&tag.to_le_bytes());
        out.extend_from_slice(&typ.to_le_bytes());
        let count = match *typ {
            T_SHORT => val.len() / 2,
            T_LONG => val.len() / 4,
            T_RATIONAL | T_SRATIONAL => val.len() / 8,
            _ => val.len(),
        } as u32;
        out.extend_from_slice(&count.to_le_bytes());
        if val.len() <= 4 {
            let mut v = val.clone();
            v.resize(4, 0);
            out.extend_from_slice(&v);
        } else {
            out.extend_from_slice(&(data_start + data.len() as u32).to_le_bytes());
            let mut v = val.clone();
            if v.len() % 2 == 1 {
                v.push(0);
            }
            data.extend_from_slice(&v);
        }
    }
    out.extend_from_slice(&0u32.to_le_bytes());
    out.extend_from_slice(&data);
    out
}

fn minimal_tiff(more: &[(u16, u16, Vec<u8>)]) -> Vec<u8> {
    let make = b"NIKON CORPORATION\0".to_vec();
    let exif_offset = 8 + 2 + 12 * 2 + 4 + make.len() as u32;
    let mut entries = vec![
        (0x8822, T_SHORT, 3u16.to_le_bytes().to_vec()),
        (0x9207, T_SHORT, 5u16.to_le_bytes().to_vec()),
        (
            0x9204,
            T_SRATIONAL,
            [(-1i32).to_le_bytes(), 3i32.to_le_bytes()].concat(),
        ),
        (
            0x920a,
            T_RATIONAL,
            [35u32.to_le_bytes(), 1u32.to_le_bytes()].concat(),
        ),
        (0xa405, T_SHORT, 52u16.to_le_bytes().to_vec()),
        (0xa001, T_SHORT, 1u16.to_le_bytes().to_vec()),
    ];
    entries.extend_from_slice(more);
    let exif_ifd = build_ifd(&entries, exif_offset);
    let ifd0 = build_ifd(
        &[
            (0x010f, T_ASCII, make.clone()),
            (0x8769, T_LONG, exif_offset.to_le_bytes().to_vec()),
        ],
        8,
    );
    let mut buf: Vec<u8> = Vec::new();
    buf.extend_from_slice(b"II");
    buf.extend_from_slice(&42u16.to_le_bytes());
    buf.extend_from_slice(&8u32.to_le_bytes());
    buf.extend_from_slice(&ifd0);
    buf.extend_from_slice(&exif_ifd);
    buf
}

fn no_floats() -> FloatTexts {
    FloatTexts {
        max_aperture: None,
        position: None,
    }
}

fn value_of(items: &[ExifItem], label: &str) -> Option<String> {
    items
        .iter()
        .find(|i| i.label == label)
        .map(|i| i.value.clone())
}

#[test]
fn parses_and_translates_a_minimal_tiff() {
    let items = read_full(&minimal_tiff(&[]), &no_floats());
    assert!(!items.is_empty(), "应能解析出自造的 TIFF");
    let get = |label: &str| {
        value_of(&items, label).unwrap_or_else(|| panic!("缺少 {label}：{items:?}"))
    };
    assert_eq!(get("品牌"), "NIKON CORPORATION");
    assert_eq!(get("曝光程序"), "光圈优先");
    assert_eq!(get("测光模式"), "评价测光（矩阵）");
    assert_eq!(get("曝光补偿"), "-0.33 EV");
    assert_eq!(get("焦距"), "35 mm");
    assert_eq!(get("等效焦距（35mm）"), "52 mm");
    assert_eq!(get("色彩空间"), "sRGB");
    let order: Vec<&str> = items.iter().map(|i| i.group.as_str()).collect();
    assert!(order.contains(&"曝光") && order.contains(&"镜头"));
    let first_lens = order.iter().position(|g| *g == "镜头").unwrap();
    assert!(order[first_lens..].iter().all(|g| *g != "曝光"));
}

#[test]
fn what_has_no_exif_has_no_rows() {
    assert!(matches!(read_doc(&[1, 2, 3]), Err(ExifError::Unreadable)));
    assert!(read_full(&[1, 2, 3], &no_floats()).is_empty());
    assert!(matches!(read_exif(&[1, 2, 3]), Err(ExifError::Unreadable)));
}

#[test]
fn version_and_comment_come_through() {
    let mut comment = b"ASCII\0\0\0".to_vec();
    comment.extend_from_slice(b"  hello there ");
    let data = minimal_tiff(&[
        (0x9000, T_UNDEFINED, b"0232".to_vec()),
        (0x9286, T_UNDEFINED, comment),
    ]);
    let items = read_full(&data, &no_floats());
    assert_eq!(value_of(&items, "EXIF 版本").as_deref(), Some("2.32"));
    assert_eq!(value_of(&items, "备注").as_deref(), Some("hello there"));
}

#[test]
fn recorded_fields_come_from_the_file() {
    let data = minimal_tiff(&[
        (0x9003, T_ASCII, b"2026:09:16 10:12:44\0".to_vec()),
        (
            0x829a,
            T_RATIONAL,
            [1u32.to_le_bytes(), 500u32.to_le_bytes()].concat(),
        ),
        (0x8827, T_SHORT, 200u16.to_le_bytes().to_vec()),
    ]);
    let lite = read_exif(&data).unwrap();
    assert_eq!(lite.taken_at, Some(1789553564));
    assert_eq!(lite.focal_len, Some(Ratio::Unsigned(35, 1)));
    assert_eq!(lite.shutter, Some(Shutter::OneOver(Ratio::Unsigned(1, 500))));
    assert_eq!(lite.iso, Some(200));
    assert_eq!(lite.camera_model, None);
}

fn field(group: TagGroup, number: u16, value: ExifValue) -> ExifField {
    ExifField {
        group,
        number,
        ifd: 0,
        value,
    }
}

fn shorts(v: &[u16]) -> ExifValue {
    ExifValue::Short(v.to_vec())
}

fn doc(fields: Vec<ExifField>) -> ExifDoc {
    ExifDoc {
        fields,
        version: None,
    }
}

fn shown(fields: Vec<ExifField>, label: &str) -> Option<String> {
    value_of(&detail_items(&doc(fields), &no_floats()), label)
}

#[test]
fn exposure_compensation_has_its_sign() {
    let bias = |v: ExifValue| shown(vec![field(TagGroup::Exif, 0x9204, v)], "曝光补偿");
    assert_eq!(bias(ExifValue::SRational(vec![(1, 3)])).as_deref(), Some("+0.33 EV"));
    assert_eq!(bias(ExifValue::SRational(vec![(-2, 3)])).as_deref(), Some("-0.67 EV"));
    assert_eq!(bias(ExifValue::SRational(vec![(2, -3)])).as_deref(), Some("-0.67 EV"));
    assert_eq!(bias(ExifValue::SRational(vec![(0, 10)])).as_deref(), Some("0 EV"));
    assert_eq!(bias(ExifValue::SRational(vec![(0, 0)])).as_deref(), Some("NaN EV"));
    assert_eq!(bias(ExifValue::SRational(vec![(1, 0)])).as_deref(), Some("+inf EV"));
    assert_eq!(
        bias(ExifValue::SRational(vec![(1, 2_000_000_000)])).as_deref(),
        Some("0 EV")
    );
    assert_eq!(bias(shorts(&[2])).as_deref(), Some("+2.00 EV"));
    assert_eq!(bias(ExifValue::Ascii(vec![b"1".to_vec()])), None);
}

#[test]
fn flash_is_read_bit_by_bit() {
    let flash = |v: u16| shown(vec![field(TagGroup::Exif, 0x9209, shorts(&[v]))], "闪光灯");
    assert_eq!(flash(0).as_deref(), Some("未闪"));
    assert_eq!(flash(1).as_deref(), Some("已闪"));
    assert_eq!(flash(0x10).as_deref(), Some("未闪 · 强制关闭"));
    assert_eq!(flash(0x59).as_deref(), Some("已闪 · 自动 · 防红眼"));
    assert_eq!(flash(0x09).as_deref(), Some("已闪 · 强制闪光"));
}

#[test]
fn picture_rows() {
    let f = |n: u16, v: ExifValue| field(TagGroup::Exif, n, v);
    let t = |n: u16, v: ExifValue| field(TagGroup::Tiff, n, v);
    assert_eq!(
        shown(vec![f(0xa002, shorts(&[6000])), f(0xa003, shorts(&[4000]))], "像素尺寸").as_deref(),
        Some("6000 × 4000")
    );
    assert_eq!(
        shown(vec![f(0xa003, shorts(&[4000]))], "像素尺寸").as_deref(),
        Some("4000")
    );
    assert_eq!(
        shown(vec![t(0x0102, shorts(&[8, 8, 8]))], "每像素位数").as_deref(),
        Some("8 / 8 / 8")
    );
    assert_eq!(shown(vec![t(0x0102, shorts(&[]))], "每像素位数"), None);
    assert_eq!(
        shown(
            vec![
                t(0x011a, ExifValue::Rational(vec![(300, 1)])),
                t(0x0128, shorts(&[2]))
            ],
            "分辨率"
        )
        .as_deref(),
        Some("300 像素/英寸")
    );
    assert_eq!(
        shown(vec![t(0x011a, ExifValue::Rational(vec![(300, 1)]))], "分辨率").as_deref(),
        Some("300 像素/单位")
    );
    assert_eq!(shown(vec![t(0x0112, shorts(&[1]))], "方向"), None);
    assert_eq!(
        shown(vec![t(0x0112, shorts(&[6]))], "方向").as_deref(),
        Some("顺时针 90°")
    );
    // The later of two fields with one tag counts; fields of a thumbnail do not.
    let mut thumb = t(0x0112, shorts(&[8]));
    thumb.ifd = 1;
    assert_eq!(
        shown(vec![t(0x0112, shorts(&[6])), t(0x0112, shorts(&[3])), thumb], "方向").as_deref(),
        Some("旋转 180°")
    );
}

#[test]
fn lens_rows() {
    let f = |n: u16, v: ExifValue| field(TagGroup::Exif, n, v);
    assert_eq!(shown(vec![f(0xa405, shorts(&[0]))], "等效焦距（35mm）"), None);
    assert_eq!(
        shown(vec![f(0x9206, ExifValue::Rational(vec![(5, 4)]))], "对焦距离").as_deref(),
        Some("1.25 m")
    );
    assert_eq!(
        shown(vec![f(0x9206, ExifValue::Rational(vec![(0, 4)]))], "对焦距离"),
        None
    );
    assert_eq!(
        shown(vec![f(0xa404, ExifValue::Rational(vec![(2, 1)]))], "数码变焦").as_deref(),
        Some("2.00×")
    );
    assert_eq!(
        shown(vec![f(0x920a, ExifValue::Rational(vec![(505, 10)]))], "焦距").as_deref(),
        Some("50.5 mm")
    );
    let d = doc(vec![f(0x9205, ExifValue::Rational(vec![(4, 1)]))]);
    assert_eq!(max_aperture_value(&d), Some(Ratio::Unsigned(4, 1)));
    let floats = FloatTexts {
        max_aperture: Some("f/4.0".to_string()),
        position: None,
    };
    let items = detail_items(&d, &floats);
    assert_eq!(value_of(&items, "最大光圈（APEX）").as_deref(), Some("f/4.0"));
    assert!(detail_items(&doc(vec![]), &floats).is_empty());
}

#[test]
fn positions_need_both_angles_and_sides() {
    let g = |n: u16, v: ExifValue| field(TagGroup::Gps, n, v);
    let dms = ExifValue::Rational(vec![(31, 1), (14, 1), (30, 1)]);
    let text = |s: &str| ExifValue::Ascii(vec![s.as_bytes().to_vec()]);
    let all = vec![
        g(1, text("s")),
        g(2, dms.clone()),
        g(3, text("E")),
        g(4, dms.clone()),
    ];
    let p = gps(&doc(all.clone())).unwrap();
    assert!(p.south && !p.west);
    assert_eq!(p.latitude.minutes, Ratio::Unsigned(14, 1));
    for i in 0..4 {
        let mut less = all.clone();
        less.remove(i);
        assert!(gps(&doc(less)).is_none());
    }
    assert_eq!(
        shown(
            vec![
                g(6, ExifValue::Rational(vec![(123, 10)])),
                g(5, ExifValue::Byte(vec![1]))
            ],
            "海拔"
        )
        .as_deref(),
        Some("-12.3 m")
    );
    assert_eq!(
        shown(vec![g(6, ExifValue::Rational(vec![(123, 10)]))], "海拔").as_deref(),
        Some("12.3 m")
    );
}

#[test]
fn comments_in_wide_characters() {
    let c = |v: Vec<u8>| shown(vec![field(TagGroup::Exif, 0x9286, ExifValue::Undefined(v))], "备注");
    let mut wide = b"UNICODE\0".to_vec();
    wide.extend_from_slice(&[0x4f, 0x60, 0x59, 0x7d, 0xd8, 0x3d]);
    assert_eq!(c(wide.clone()).as_deref(), Some("你好"));
    wide.push(0x41);
    assert_eq!(c(wide).as_deref(), Some("你好"));
    assert_eq!(c(b"short".to_vec()).as_deref(), Some("short"));
    assert_eq!(c(b"ASCII\0\0\0   ".to_vec()), None);
}

#[test]
fn texts_stop_at_a_zero_byte() {
    let make = |v: &[u8]| {
        shown(
            vec![field(TagGroup::Tiff, 0x010f, ExifValue::Ascii(vec![v.to_vec()]))],
            "品牌",
        )
    };
    assert_eq!(make(b" NIKON \0junk").as_deref(), Some("NIKON"));
    assert_eq!(make(b"  \0junk"), None);
    assert_eq!(make(&[0xe9]).as_deref(), Some("é"));
}

#[test]
fn focus_row_joins_the_exposure_section() {
    let d = doc(vec![
        field(TagGroup::Exif, 0x8822, shorts(&[1])),
        field(TagGroup::Tiff, 0x0110, ExifValue::Ascii(vec![b"Z50".to_vec()])),
    ]);
    let items = detail_items(&d, &no_floats());
    let value = focus_text("1.0", "2.0", "3.0", "4.0", &Some("单点 AF".to_string()));
    assert_eq!(value, "横向 1.0%、纵向 2.0%（区域 3.0% × 4.0%） · 单点 AF");
    let out = insert_focus(items, value);
    let labels: Vec<&str> = out.iter().map(|i| i.label.as_str()).collect();
    assert_eq!(labels, vec!["曝光程序", "对焦区域", "型号"]);
    let alone = insert_focus(vec![], "x".to_string());
    assert_eq!(alone.len(), 1);
    assert_eq!(
        focus_text("1", "2", "3", "4", &None),
        "横向 1%、纵向 2%（区域 3% × 4%）"
    );
}

#[test]
fn fractions_lose_their_zeros() {
    assert_eq!(trim_fraction("1.500".to_string()), "1.5");
    assert_eq!(trim_fraction("100".to_string()), "100");
    assert_eq!(trim_fraction("2.000".to_string()), "2");
}

#[test]
fn exposure_times_take_two_forms() {
    let shutter = |v: ExifValue| lite_of(&doc(vec![field(TagGroup::Exif, 0x829a, v)])).shutter;
    assert_eq!(
        shutter(ExifValue::Rational(vec![(1, 1)])),
        Some(Shutter::Seconds(Ratio::Unsigned(1, 1)))
    );
    assert_eq!(
        shutter(ExifValue::Rational(vec![(0, 5)])),
        Some(Shutter::Seconds(Ratio::Unsigned(0, 5)))
    );
    assert_eq!(
        shutter(ExifValue::SRational(vec![(-1, -8)])),
        Some(Shutter::OneOver(Ratio::Signed(-1, -8)))
    );
    assert_eq!(
        shutter(ExifValue::Other),
        Some(Shutter::Seconds(Ratio::Unsigned(0, 1)))
    );
    assert_eq!(lite_of(&doc(vec![])).shutter, None);
}
