use sp::af::{
    af_area_in, af_area_of, apply_orientation, makernote_tiff, mn_field, parse_af_info2, u16at,
    u32at, AfBox,
};
use sp::exif_doc::{ExifDoc, ExifField, ExifValue, TagGroup};

/// A block as the camera writes it: a picture of 5568 by 3712, an area of 144 by 146
/// around (3447, 3249).
fn sample(mode: u8, coords: u8) -> Vec<u8> {
    let mut b = vec![0u8; 80];
    b[0..4].copy_from_slice(b"0402");
    b[5] = mode;
    b[7] = coords;
    b[62..64].copy_from_slice(&5568u16.to_le_bytes());
    b[64..66].copy_from_slice(&3712u16.to_le_bytes());
    b[66..68].copy_from_slice(&3447u16.to_le_bytes());
    b[68..70].copy_from_slice(&3249u16.to_le_bytes());
    b[70..72].copy_from_slice(&144u16.to_le_bytes());
    b[72..74].copy_from_slice(&146u16.to_le_bytes());
    b
}

#[test]
fn reads_the_real_layout() {
    let (a, mode) = parse_af_info2(&sample(197, 1)).expect("应当解析出对焦框");
    let x = a.x as f64 / a.image_w as f64;
    let y = a.y as f64 / a.image_h as f64;
    let w = a.w as f64 / a.image_w as f64;
    let h = a.h as f64 / a.image_h as f64;
    assert!((x - 3447.0 / 5568.0).abs() < 1e-6, "x={x}");
    assert!((y - 3249.0 / 3712.0).abs() < 1e-6, "y={y}");
    assert!((w - 144.0 / 5568.0).abs() < 1e-6, "w={w}");
    assert!((h - 146.0 / 3712.0).abs() < 1e-6, "h={h}");
    assert_eq!(mode.as_deref(), Some("自动区域 AF"));
}

#[test]
fn refuses_what_it_cannot_trust() {
    assert!(parse_af_info2(&sample(197, 0)).is_none());
    let mut b = sample(197, 1);
    b[0..4].copy_from_slice(b"0200");
    assert!(parse_af_info2(&b).is_none());
    let mut b = sample(197, 1);
    b[66..68].copy_from_slice(&60000u16.to_le_bytes());
    assert!(parse_af_info2(&b).is_none());
    assert!(parse_af_info2(&sample(197, 1)[..40]).is_none());
}

#[test]
fn orientation_spins_the_box() {
    // x = 0.25, y = 0.75, w = 0.1, h = 0.2
    let a = AfBox {
        image_w: 100,
        image_h: 100,
        x: 25,
        y: 75,
        w: 10,
        h: 20,
    };
    let ratio = |b: &AfBox| {
        (
            b.x as f64 / b.image_w as f64,
            b.y as f64 / b.image_h as f64,
            b.w as f64 / b.image_w as f64,
            b.h as f64 / b.image_h as f64,
        )
    };
    let (x, y, w, h) = (0.25, 0.75, 0.1, 0.2);
    let r = ratio(&apply_orientation(a, 1));
    assert!((r.0 - x).abs() < 1e-9 && (r.1 - y).abs() < 1e-9);
    let r = ratio(&apply_orientation(a, 3));
    assert!((r.0 - 0.75).abs() < 1e-9 && (r.1 - 0.25).abs() < 1e-9);
    assert!((r.2 - w).abs() < 1e-9 && (r.3 - h).abs() < 1e-9);
    let b6 = apply_orientation(a, 6);
    let b8 = apply_orientation(a, 8);
    let r6 = ratio(&b6);
    let r8 = ratio(&b8);
    assert!((r6.2 - h).abs() < 1e-9 && (r6.3 - w).abs() < 1e-9);
    assert!((r8.2 - h).abs() < 1e-9 && (r8.3 - w).abs() < 1e-9);
    let back = ratio(&apply_orientation(b6, 8));
    assert!((back.0 - x).abs() < 1e-9 && (back.1 - y).abs() < 1e-9);
}

#[test]
fn numbers_in_both_byte_orders() {
    let b = [1u8, 2, 3, 4];
    assert_eq!(u16at(&b, 0, true), 0x0201);
    assert_eq!(u16at(&b, 0, false), 0x0102);
    assert_eq!(u32at(&b, 0, true), 0x04030201);
    assert_eq!(u32at(&b, 0, false), 0x01020304);
    assert_eq!(u16at(&b, 3, true), 0);
    assert_eq!(u32at(&b, usize::MAX, true), 0);
}

/// A MakerNote whose only field is the AFInfo2 block.
fn maker_note(block: &[u8], little: bool) -> Vec<u8> {
    let num16 = |v: u16| if little { v.to_le_bytes() } else { v.to_be_bytes() };
    let num32 = |v: u32| if little { v.to_le_bytes() } else { v.to_be_bytes() };
    let mut t: Vec<u8> = Vec::new();
    t.extend_from_slice(if little { b"II" } else { b"MM" });
    t.extend_from_slice(&num16(42));
    t.extend_from_slice(&num32(8));
    t.extend_from_slice(&num16(2));
    // A field in front of it, held in its entry.
    t.extend_from_slice(&num16(0x0001));
    t.extend_from_slice(&num16(3));
    t.extend_from_slice(&num32(1));
    t.extend_from_slice(&num32(7));
    t.extend_from_slice(&num16(0x00b7));
    t.extend_from_slice(&num16(7));
    t.extend_from_slice(&num32(block.len() as u32));
    t.extend_from_slice(&num32(8 + 2 + 24 + 4));
    t.extend_from_slice(&num32(0));
    t.extend_from_slice(block);
    let mut mn = b"Nikon\0\x02\x10\0\0".to_vec();
    mn.extend_from_slice(&t);
    mn
}

fn doc_with(mn: Vec<u8>) -> ExifDoc {
    ExifDoc {
        fields: vec![ExifField {
            group: TagGroup::Exif,
            number: 0x927c,
            ifd: 0,
            value: ExifValue::Undefined(mn),
        }],
        version: None,
    }
}

#[test]
fn finds_the_block_in_a_maker_note() {
    let mn = maker_note(&sample(193, 1), true);
    let tiff = makernote_tiff(&mn).unwrap();
    assert_eq!(mn_field(tiff, 0x00b7, true).unwrap(), &sample(193, 1)[..]);
    assert_eq!(mn_field(tiff, 0x0001, true).unwrap(), &[7u8, 0]);
    assert!(mn_field(tiff, 0x0002, true).is_none());
    assert!(makernote_tiff(b"Canon stuff that is long enough").is_none());

    let area = af_area_in(&doc_with(mn.clone()), 6).unwrap();
    assert_eq!(area.mode.as_deref(), Some("单点 AF"));
    assert_eq!(
        area.area,
        AfBox {
            image_w: 3712,
            image_h: 5568,
            x: 3712 - 3249,
            y: 3447,
            w: 146,
            h: 144
        }
    );
    // A pointer behind the end of the data.
    let cut = mn[..mn.len() - 1].to_vec();
    assert!(af_area_in(&doc_with(cut), 1).is_none());
    // In the other byte order the version of the block is not known.
    assert!(af_area_in(&doc_with(maker_note(&sample(193, 1), false)), 1).is_none());
}

#[test]
fn a_file_without_exif_has_no_focus_area() {
    assert!(af_area_of(&[0u8; 64], 1).is_none());
}
