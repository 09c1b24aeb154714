use sp::frame::can_decode;
use sp::image_io::decode_jpeg;
use sp::preview::{
    best_jpeg, best_jpeg_bytes, fitting_jpeg, fitting_jpeg_bytes, parse_jpeg_span, read_len, JpegSpan,
};

/// A real JPEG of one colour.
fn make_jpeg(w: u32, h: u32) -> Vec<u8> {
    let img = image::DynamicImage::ImageRgb8(image::RgbImage::from_pixel(
        w,
        h,
        image::Rgb([120, 160, 90]),
    ));
    let mut out = Vec::new();
    let mut enc = image::codecs::jpeg::JpegEncoder::new_with_quality(&mut out, 90);
    enc.encode_image(&img).unwrap();
    out
}

#[test]
fn parses_plain_jpeg_dimensions() {
    let jpeg = make_jpeg(1280, 853);
    let span = parse_jpeg_span(&jpeg).expect("应该能解析");
    assert_eq!((span.width, span.height), (1280, 853));
    assert_eq!(span.end, jpeg.len(), "结束位置应该是 EOI 之后一位");
}

#[test]
fn picks_largest_preview_not_the_exif_thumbnail() {
    let small = make_jpeg(160, 120);
    let big = make_jpeg(1600, 1067);

    let mut file = vec![0u8; 4096];
    file.extend_from_slice(&small);
    file.extend_from_slice(&vec![7u8; 2048]);
    file.extend_from_slice(&big);
    file.extend_from_slice(&vec![9u8; 1024]);

    let span = best_jpeg(&file).expect("应该找到预览");
    assert_eq!((span.width, span.height), (1600, 1067));
    assert_eq!(&file[span.start..span.end], &big[..]);

    let (bytes, route) = best_jpeg_bytes(&file).unwrap();
    assert_eq!(bytes, big);
    assert_eq!(route, "embedded-jpeg");
    assert_eq!(best_jpeg_bytes(&big).unwrap().1, "file-jpeg");
}

#[test]
fn ignores_nested_thumbnail_inside_app1() {
    let inner = make_jpeg(120, 80);
    let mut seg = Vec::new();
    seg.extend_from_slice(&[0xFF, 0xE1]); // APP1
    let payload_len = 2 + 6 + inner.len();
    seg.extend_from_slice(&(payload_len as u16).to_be_bytes());
    seg.extend_from_slice(b"Exif\0\0");
    seg.extend_from_slice(&inner);

    let mut outer = vec![0xFF, 0xD8];
    outer.extend_from_slice(&seg);
    outer.extend_from_slice(&[0xFF, 0xC0, 0x00, 0x11, 0x08]);
    outer.extend_from_slice(&1067u16.to_be_bytes());
    outer.extend_from_slice(&1600u16.to_be_bytes());
    outer.extend_from_slice(&[0x03, 0x01, 0x11, 0x00, 0x02, 0x11, 0x01, 0x03, 0x11, 0x01]);
    outer.extend_from_slice(&[
        0xFF, 0xDA, 0x00, 0x0C, 0x03, 0x01, 0x00, 0x02, 0x11, 0x03, 0x11, 0x00,
    ]);
    outer.extend_from_slice(&[0x12, 0x34, 0xFF, 0x00, 0x56, 0x78]);
    outer.extend_from_slice(&[0xFF, 0xD9]);

    let span = parse_jpeg_span(&outer).expect("应该解析成功而不是截到内嵌缩略图");
    assert_eq!((span.width, span.height), (1600, 1067));
    assert_eq!(
        span.end,
        outer.len(),
        "必须终止在外层 EOI，而不是内层缩略图的 EOI"
    );
    assert!(span.len() > inner.len(), "截出来的应该比内嵌缩略图大得多");
}

#[test]
fn rejects_data_without_jpeg() {
    let junk = vec![0u8; 8192];
    assert!(best_jpeg(&junk).is_none());
}

#[test]
fn a_header_that_is_cut_off_gives_no_picture() {
    let jpeg = make_jpeg(700, 500);
    for n in 0..200 {
        assert!(parse_jpeg_span(&jpeg[..n]).is_none(), "cut at {n}");
        assert!(best_jpeg(&jpeg[..n]).is_none(), "cut at {n}");
    }
}

#[test]
fn small_and_equal_previews() {
    assert!(best_jpeg(&make_jpeg(639, 900)).is_none());
    assert!(best_jpeg(&make_jpeg(640, 10)).is_some());

    let a = make_jpeg(800, 640);
    let mut two = a.clone();
    two.extend_from_slice(&make_jpeg(640, 800));
    let best = best_jpeg(&two).unwrap();
    assert_eq!((best.start, best.end, best.width), (0, a.len(), 800));
}

#[test]
fn spans_and_length_fields() {
    let s = JpegSpan {
        start: 10,
        end: 25,
        width: 65535,
        height: 65535,
    };
    assert_eq!(s.len(), 15);
    assert_eq!(s.pixels(), 4294836225);
    assert_eq!(read_len(&[0x01, 0x02], 0), Some(258));
    assert_eq!(read_len(&[0x00, 0x01], 0), None);
    assert_eq!(read_len(&[0x01], 0), None);
    assert_eq!(read_len(&[0x01, 0x02], usize::MAX), None);
}

#[test]
fn the_smallest_preview_that_suffices_is_taken() {
    let mut file = vec![1u8; 100];
    for (w, h) in [(160, 120), (640, 424), (2000, 1333), (1620, 1080), (1080, 1620)] {
        file.extend_from_slice(&make_jpeg(w, h));
        file.extend_from_slice(&[3u8; 10]);
    }
    let span = fitting_jpeg(&file, 1280).unwrap();
    assert_eq!((span.width, span.height), (1620, 1080));
    let bytes = fitting_jpeg_bytes(&file, 1280).unwrap();
    assert_eq!(bytes, &file[span.start..span.end]);
    assert_eq!(fitting_jpeg(&file, 1800).unwrap().width, 2000);
    assert!(fitting_jpeg(&file, 3000).is_none());
    assert!(fitting_jpeg_bytes(&[0u8; 20], 1).is_none());
}

#[test]
fn what_stands_around_a_jpeg_changes_nothing() {
    let jpeg = make_jpeg(800, 600);
    let span = parse_jpeg_span(&jpeg).unwrap();
    let mut longer = jpeg.clone();
    longer.extend_from_slice(&[0xff, 0xd9, 0xff, 0xd8, 0xff]);
    assert_eq!(parse_jpeg_span(&longer), Some(span));
    let mut behind = vec![0x11u8; 77];
    behind.extend_from_slice(&jpeg);
    let found = best_jpeg(&behind).unwrap();
    assert_eq!((found.start, found.end), (77, 77 + span.end));
}

/// The position of the frame header in a JPEG file without nested ones.
fn frame_at(jpeg: &[u8]) -> usize {
    (0..jpeg.len())
        .find(|&i| jpeg[i] == 0xff && matches!(jpeg[i + 1], 0xc0..=0xc2))
        .unwrap()
}

#[test]
fn only_headers_that_the_decoder_expects_are_decoded() {
    let plain = make_jpeg(8, 8);
    assert!(can_decode(&plain));
    let img = decode_jpeg(&plain).unwrap();
    assert_eq!((img.width(), img.height()), (8, 8));

    // The second component is sampled more finely than the first, one way or both.
    let at = frame_at(&plain);
    assert_eq!(plain[at + 9], 3);
    for factors in [0x22u8, 0x21, 0x12] {
        let mut fine = plain.clone();
        fine[at + 14] = factors;
        assert!(!can_decode(&fine));
        assert!(decode_jpeg(&fine).is_none());
        // A first component that is sampled as finely makes it good again.
        fine[at + 11] = factors;
        assert!(can_decode(&fine));
    }

    // A progressive picture with two components, or a colour space that comes late.
    let header = |components: u8, after: &[u8], before: &[u8]| {
        let mut d = vec![0xff, 0xd8];
        d.extend_from_slice(before);
        d.extend_from_slice(&[0xff, 0xc2, 0, 8 + 3 * components, 8, 0, 8, 0, 8, components]);
        for c in 0..components {
            d.extend_from_slice(&[c, 0x11, 0]);
        }
        d.extend_from_slice(after);
        d
    };
    let adobe = [0xff, 0xee, 0, 4, 1, 2];
    assert!(can_decode(&header(3, &adobe, &adobe)));
    assert!(can_decode(&header(1, &[], &adobe)));
    assert!(!can_decode(&header(1, &adobe, &[])));
    assert!(can_decode(&header(4, &[], &adobe)));
    assert!(!can_decode(&header(4, &adobe, &[])));
    assert!(can_decode(&header(2, &[], &[])));
    assert!(!can_decode(&header(2, &[], &adobe)));
    // What is in a segment is not taken for a header.
    let nested = [0xff, 0xe1, 0, 20, 0xff, 0xc0, 0, 14, 8, 0, 8, 0, 8, 2, 1, 0x11, 0, 2, 0x22, 0, 0, 0];
    assert!(can_decode(&header(3, &[], &nested)));
    assert!(can_decode(&[]) && decode_jpeg(&[]).is_none());
}
