use sp::analyze::{measure, measure_gray, metrics_for, Metrics, MetricsError};
use sp::image_io::GrayBuf;
use sp::picture::{box_resize, box_resize_to, letterbox, placeholder, RgbBuf};

fn flat_rgb(w: u32, h: u32, c: [u8; 3]) -> RgbBuf {
    let mut data = Vec::new();
    for _ in 0..w * h {
        data.extend_from_slice(&c);
    }
    RgbBuf {
        width: w,
        height: h,
        data,
    }
}

fn pixel(b: &RgbBuf, x: u32, y: u32) -> [u8; 3] {
    let i = ((y * b.width + x) * 3) as usize;
    [b.data[i], b.data[i + 1], b.data[i + 2]]
}

/// The size of a picture at the scale that brings its longest side to `target`.
fn scaled(b: &RgbBuf, target: u32) -> (u32, u32) {
    let long = b.width.max(b.height);
    let scale = target as f32 / long as f32;
    (
        (b.width as f32 * scale).round() as u32,
        (b.height as f32 * scale).round() as u32,
    )
}

#[test]
fn box_resize_keeps_sizes_and_averages() {
    let flat = flat_rgb(400, 300, [120, 160, 90]);
    let small = box_resize(&flat, 200, scaled(&flat, 200));
    assert_eq!((small.width, small.height), (200, 150), "长边要落在目标上");
    assert_eq!(pixel(&small, 0, 0), [120, 160, 90]);
    assert_eq!(pixel(&small, 199, 149), [120, 160, 90]);

    let (w, h) = (small.width, small.height);
    assert!((w as f32 / h as f32 - 400.0 / 300.0).abs() < 0.02);

    let mut board = RgbBuf {
        width: 4,
        height: 4,
        data: Vec::new(),
    };
    for y in 0..4 {
        for x in 0..4 {
            let v = if (x + y) % 2 == 0 { 0u8 } else { 200u8 };
            board.data.extend_from_slice(&[v, v, v]);
        }
    }
    let mixed = box_resize_to(&board, 2, 2);
    assert_eq!(
        pixel(&mixed, 0, 0),
        [100, 100, 100],
        "一块里黑白各半，平均是 100"
    );

    let tiny = flat_rgb(100, 80, [10, 20, 30]);
    let same = box_resize(&tiny, 1280, scaled(&tiny, 1280));
    assert_eq!((same.width, same.height), (100, 80));
}

#[test]
fn blocks_overlap_where_sizes_do_not_divide() {
    // Three columns become two: the middle one belongs to both.
    let img = RgbBuf {
        width: 3,
        height: 1,
        data: vec![0, 0, 0, 30, 30, 30, 90, 90, 90],
    };
    let out = box_resize_to(&img, 2, 1);
    assert_eq!(out.data, vec![15, 15, 15, 60, 60, 60]);
    // Enlarging repeats pixels.
    let up = box_resize_to(&img, 6, 1);
    assert_eq!(up.data[0..6], [0, 0, 0, 0, 0, 0]);
    assert_eq!(box_resize(&img, 2, (0, 0)).data, vec![40, 40, 40]);
}

#[test]
fn pictures_are_framed_in_black() {
    let img = flat_rgb(2, 1, [9, 8, 7]);
    let (canvas, ox, oy) = letterbox(&img, 4);
    assert_eq!((canvas.width, canvas.height, ox, oy), (4, 4, 1, 1));
    assert_eq!(pixel(&canvas, 0, 1), [0, 0, 0]);
    assert_eq!(pixel(&canvas, 1, 1), [9, 8, 7]);
    assert_eq!(pixel(&canvas, 2, 1), [9, 8, 7]);
    assert_eq!(pixel(&canvas, 1, 2), [0, 0, 0]);
}

#[test]
fn placeholder_is_a_real_image() {
    let p = placeholder(320, 200);
    let img = image::DynamicImage::ImageRgb8(
        image::RgbImage::from_raw(p.width, p.height, p.data).expect("像素数要对得上"),
    );
    assert_eq!(img.width(), 320);
    assert_eq!(img.height(), 200);
    let rgb = img.to_rgb8();
    let mut seen = std::collections::HashSet::new();
    for p in rgb.pixels().take(4000) {
        seen.insert((p[0], p[1], p[2]));
    }
    assert!(seen.len() > 1, "占位图不该是纯色块");
}

#[test]
fn placeholder_shows_a_crossed_square() {
    let p = placeholder(320, 200);
    let fg = [120, 124, 133];
    // The square has a side of 50 and starts at (135, 75).
    assert_eq!(pixel(&p, 135, 75), fg);
    assert_eq!(pixel(&p, 184, 76), fg);
    assert_eq!(pixel(&p, 160, 124), fg);
    assert_eq!(pixel(&p, 145, 85), fg);
    assert_eq!(pixel(&p, 0, 0), [46, 48, 54]);
    assert_eq!(pixel(&p, 32, 0), [38, 40, 45]);
    assert_eq!(placeholder(1024, 683).data.len(), 1024 * 683 * 3);
    assert!(placeholder(3, 0).data.is_empty());
}

/// The share and the score that the sums stand for.
fn sharpness(m: &Metrics) -> f64 {
    if m.edges == 0 {
        return 0.0;
    }
    let n = m.edges as f64;
    let mean = m.edge_sum as f64 / n;
    let variance = (m.edge_squares as f64 / n - mean * mean).max(0.0);
    variance.sqrt().clamp(0.0, 100.0)
}

fn noisy(w: u32, h: u32) -> image::DynamicImage {
    let mut img = image::GrayImage::new(w, h);
    for (x, y, p) in img.enumerate_pixels_mut() {
        let v = ((x * 7 + y * 13) % 251) as u8;
        *p = image::Luma([v]);
    }
    image::DynamicImage::ImageLuma8(img)
}

fn flat(w: u32, h: u32) -> image::DynamicImage {
    image::DynamicImage::ImageLuma8(image::GrayImage::from_pixel(w, h, image::Luma([128u8])))
}

#[test]
fn sharp_beats_blurry() {
    let s_sharp = sharpness(&measure(&noisy(256, 256)));
    let s_flat = sharpness(&measure(&flat(256, 256)));
    assert!(
        s_sharp > s_flat + 10.0,
        "清晰图该明显高过纯色图：{s_sharp} vs {s_flat}"
    );
    assert!(s_flat < 25.0, "纯色图该被判成糊");
}

#[test]
fn counts_over_and_under_exposed_pixels() {
    let mut img = image::GrayImage::new(100, 100);
    for (i, p) in img.pixels_mut().enumerate() {
        let v = if i < 1000 {
            255u8
        } else if i < 4000 {
            0u8
        } else {
            128u8
        };
        *p = image::Luma([v]);
    }
    let m = measure(&image::DynamicImage::ImageLuma8(img));
    let over = m.overexposed as f64 / m.pixels as f64;
    let under = m.underexposed as f64 / m.pixels as f64;
    assert!((over - 0.10).abs() < 0.02, "过曝占比 {over:.3}");
    assert!((under - 0.30).abs() < 0.02, "欠曝占比 {under:.3}");
}

#[test]
fn edges_are_summed() {
    let g = GrayBuf {
        width: 3,
        height: 4,
        data: vec![0, 0, 0, 0, 10, 0, 0, 255, 5, 0, 0, 6],
    };
    let m = measure_gray(&g);
    // 4 * 10 - 255 = -215 and 4 * 255 - 10 - 5 = 1005
    assert_eq!(
        m,
        Metrics {
            edges: 2,
            edge_sum: 790,
            edge_squares: 215 * 215 + 1005 * 1005,
            pixels: 12,
            overexposed: 1,
            underexposed: 9
        }
    );
    let small = GrayBuf {
        width: 2,
        height: 2,
        data: vec![0, 255, 0, 255],
    };
    assert_eq!(measure_gray(&small), Metrics::default());
}

#[test]
fn a_file_is_judged_by_its_preview() {
    let mut jpeg = Vec::new();
    let mut enc = image::codecs::jpeg::JpegEncoder::new_with_quality(&mut jpeg, 90);
    enc.encode_image(&noisy(800, 600)).unwrap();
    let mut file = vec![0u8; 100];
    file.extend_from_slice(&jpeg);
    let m = metrics_for(&file).unwrap();
    assert_eq!(m.pixels, 256 * 192);
    assert!(sharpness(&m) > 10.0);
    assert_eq!(metrics_for(&[0u8; 100]), Err(MetricsError::NoPreview));
    // A frame of the right shape without a picture in it.
    let mut broken = vec![0xFF, 0xD8, 0xFF, 0xC0, 0x00, 0x11, 0x08];
    broken.extend_from_slice(&1067u16.to_be_bytes());
    broken.extend_from_slice(&1600u16.to_be_bytes());
    broken.extend_from_slice(&[0x03, 0x01, 0x11, 0x00, 0x02, 0x11, 0x01, 0x03, 0x11, 0x01]);
    broken.extend_from_slice(&[
        0xFF, 0xDA, 0x00, 0x0C, 0x03, 0x01, 0x00, 0x02, 0x11, 0x03, 0x11, 0x00, 0x00, 0x3f,
    ]);
    broken.extend_from_slice(&[0xFF, 0xD9]);
    assert_eq!(metrics_for(&broken), Err(MetricsError::Undecodable));
}
