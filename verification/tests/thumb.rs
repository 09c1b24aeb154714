use sp::cache::{
    cache_size, drop_order, enforce_if_needed, global_limiter, CacheEntry, Limiter, PruneRun,
};
use sp::hash::fingerprint;
use sp::thumb::{
    all_cached, cache_key, cache_path, data_url, decode_preview, encode_thumb, encode_thumb_checked, ensure,
    exif_orientation, make_upright, missing, sizes_for, thumb_paths, Level, SIZE_GRID, SIZE_LOUPE,
    SIZE_MICRO, SIZE_PREVIEW,
};

fn make_jpeg(w: u32, h: u32) -> Vec<u8> {
    let img = image::DynamicImage::ImageRgb8(image::RgbImage::from_pixel(
        w,
        h,
        image::Rgb([120, 160, 90]),
    ));
    let mut out = Vec::new();
    let mut enc = image::codecs::jpeg::JpegEncoder::new_with_quality(&mut out, 90);
    enc.encode_image(&img).unwrap();
    out
}

#[test]
fn sizes_for_picks_the_right_tier() {
    assert_eq!(sizes_for(SIZE_PREVIEW), vec![SIZE_PREVIEW]);
    assert_eq!(sizes_for(SIZE_LOUPE), vec![SIZE_LOUPE]);
    assert_eq!(sizes_for(SIZE_GRID), vec![SIZE_GRID, SIZE_MICRO]);
    assert!(SIZE_PREVIEW > SIZE_LOUPE, "高清档必须比大图档大");
}

#[test]
fn thumbnail_never_upscales() {
    let jpeg = make_jpeg(320, 240);
    let img = image::load_from_memory_with_format(&jpeg, image::ImageFormat::Jpeg).unwrap();
    let out = encode_thumb(&img, 512).unwrap();
    let back = image::load_from_memory_with_format(&out, image::ImageFormat::Jpeg).unwrap();
    assert_eq!((back.width(), back.height()), (320, 240));
}

#[test]
fn preview_tier_really_is_higher_resolution() {
    let jpeg = make_jpeg(4200, 2800);
    let (img, route) = decode_preview(&jpeg).unwrap();
    assert_eq!(route, "file-jpeg");
    let out = encode_thumb(&img, SIZE_PREVIEW).unwrap();
    let decoded = image::load_from_memory_with_format(&out, image::ImageFormat::Jpeg).unwrap();
    assert_eq!(decoded.width(), SIZE_PREVIEW, "应该缩到高清档的宽度");
    assert!(
        decoded.width() > SIZE_LOUPE,
        "高清档必须明显大于大图档，否则放大没意义"
    );
}

#[test]
fn pictures_too_large_for_a_thumbnail_are_refused() {
    let gray = |side: u32| image::DynamicImage::ImageLuma8(image::GrayImage::new(side, side));
    assert!(encode_thumb_checked(&gray(4100), 1).is_none());
    assert!(encode_thumb_checked(&gray(4000), 0).is_none());
    let out = encode_thumb_checked(&gray(4000), 1).unwrap().unwrap();
    let back = image::load_from_memory_with_format(&out, image::ImageFormat::Jpeg).unwrap();
    assert_eq!((back.width(), back.height()), (1, 1));
    let thin = image::DynamicImage::ImageLuma8(image::GrayImage::new(60000, 1));
    assert!(encode_thumb_checked(&thin, 1).is_some());
    let deep = |side: u32| {
        image::DynamicImage::ImageLuma16(image::ImageBuffer::new(side, side))
    };
    assert!(encode_thumb_checked(&deep(256), 1).is_none());
    assert!(encode_thumb_checked(&deep(250), 1).is_some());
    assert!(encode_thumb_checked(&deep(256), 256).is_some());
    let float = image::DynamicImage::ImageRgb32F(image::ImageBuffer::new(300, 300));
    assert!(encode_thumb_checked(&float, 1).is_some());
}

#[test]
fn only_missing_thumbnails_are_made() {
    assert_eq!(missing(&vec![true, false, true, false]), vec![1, 3]);
    assert!(missing(&vec![true, true]).is_empty());
    assert_eq!(missing(&vec![false]), vec![0]);
}

#[test]
fn pictures_are_turned_before_scaling() {
    let jpeg = make_jpeg(900, 600);
    let (mut img, _) = decode_preview(&jpeg).unwrap();
    make_upright(&mut img, Some(6));
    assert_eq!((img.width(), img.height()), (600, 900));
    let out = encode_thumb(&img, 300).unwrap();
    let back = image::load_from_memory_with_format(&out, image::ImageFormat::Jpeg).unwrap();
    assert_eq!((back.width(), back.height()), (200, 300));
    make_upright(&mut img, Some(3));
    make_upright(&mut img, Some(1));
    make_upright(&mut img, None);
    assert_eq!((img.width(), img.height()), (600, 900));
    assert!(exif_orientation(Some(1)).is_none() && exif_orientation(Some(9)).is_none());
    assert_eq!(
        (2..=8).filter(|v| exif_orientation(Some(*v)).is_some()).count(),
        7
    );
    assert!(decode_preview(&[0u8; 50]).is_none());
}

#[test]
fn a_corner_shows_the_turn() {
    let mut rgb = image::RgbImage::from_pixel(3, 2, image::Rgb([0, 0, 0]));
    rgb.put_pixel(0, 0, image::Rgb([255, 0, 0]));
    let mut img = image::DynamicImage::ImageRgb8(rgb);
    make_upright(&mut img, Some(6));
    assert_eq!(img.to_rgb8().get_pixel(1, 0).0, [255, 0, 0]);
}

#[test]
fn keys_have_the_stored_form() {
    let key = cache_key("fp", 512);
    let expect = blake3::hash(b"fp|512").to_hex().to_string();
    assert_eq!(key, expect[..20]);
    assert_eq!(
        cache_path("/c", "fp", 512),
        format!("/c/{}/{}-512.jpg", &key[..2], key)
    );
    assert_ne!(cache_key("fp", 512), cache_key("fp", 160));
    assert_ne!(cache_key("fp", 512), cache_key("fq", 512));
}

#[test]
fn fingerprints_have_the_stored_form() {
    let mut h = blake3::Hasher::new();
    h.update(&1234u64.to_le_bytes());
    h.update(&(-5i64).to_le_bytes());
    h.update(b"head");
    assert_eq!(
        fingerprint(1234, -5, b"head"),
        h.finalize().to_hex().to_string()[..32]
    );
    assert_ne!(fingerprint(1, 0, b""), fingerprint(0, 1, b""));
}

#[test]
fn thumbnails_are_reported_in_order() {
    let sizes = vec![512, 160];
    let paths = thumb_paths("/c", "fp", &sizes);
    assert_eq!(paths[0], cache_path("/c", "fp", 512));
    assert!(!all_cached(&vec![true, false]) && all_cached(&vec![true, true]));
    let infos = ensure(&paths, &vec![true, false], "embedded-jpeg", 6000, 4000);
    assert_eq!(infos.len(), 2);
    assert!(infos[0].from_cache && infos[0].route == "cached" && infos[0].source_width == 0);
    assert!(!infos[1].from_cache && infos[1].route == "embedded-jpeg");
    assert_eq!((infos[1].source_width, infos[1].source_height), (6000, 4000));
    assert_eq!(infos[1].path, paths[1]);
}

#[test]
fn decoding_goes_from_fast_to_slow() {
    let mut level = Level::Preview;
    let mut routes = vec![level.route("embedded-jpeg")];
    for _ in 0..4 {
        level = level.next();
        routes.push(level.route("embedded-jpeg"));
    }
    assert_eq!(
        routes,
        vec!["embedded-jpeg", "image-decode", "raw-decode", "placeholder", "placeholder"]
    );
}

#[test]
fn pictures_become_addresses() {
    assert_eq!(data_url(b"hello"), "data:image/jpeg;base64,aGVsbG8=");
    assert_eq!(data_url(&[0xfb, 0xff]), "data:image/jpeg;base64,+/8=");
}

#[test]
fn limiter_caps_concurrency_and_releases() {
    let mut limiter = Limiter::new(2);
    let mut held = Vec::new();
    let mut peak = 0;
    for _ in 0..8 {
        match limiter.acquire() {
            Some(p) => held.push(p),
            None => {
                limiter.release(held.pop().unwrap());
                held.push(limiter.acquire().unwrap());
            }
        }
        peak = peak.max(limiter.active);
    }
    assert!(limiter.acquire().is_none());
    for p in held {
        limiter.release(p);
    }
    assert_eq!(limiter.active, 0, "名额必须全部归还");
    assert!(peak <= 2, "并发不能超过上限");
    // Once all are given back, all can be taken again.
    assert!(limiter.acquire().is_some() && limiter.acquire().is_some());
    assert!(limiter.acquire().is_none());
    assert_eq!(Limiter::new(0).max, 1);
    assert_eq!(global_limiter().max, 4);
}

fn entries(n: usize) -> Vec<CacheEntry> {
    (0..n)
        .map(|i| CacheEntry {
            size: 100,
            atime: 1000 + i as i128,
        })
        .collect()
}

fn prune(files: &Vec<CacheEntry>, max: u64, deletable: &dyn Fn(usize) -> bool) -> (u64, u64, Vec<usize>) {
    let mut gone = Vec::new();
    match PruneRun::start(files, max) {
        None => (0, 0, gone),
        Some(mut run) => {
            while let Some(i) = run.next(files) {
                let ok = deletable(i);
                if ok {
                    gone.push(i);
                }
                run.dropped(files, ok);
            }
            (run.stats.removed, run.stats.freed_bytes, gone)
        }
    }
}

#[test]
fn enforce_limit_does_nothing_when_under_the_cap() {
    let stats = prune(&entries(4), 1000, &|_| true);
    assert_eq!(stats.0, 0);
    assert!(stats.2.is_empty(), "没超限就不该动任何文件");
}

#[test]
fn enforce_limit_drops_the_least_recently_used_first() {
    let mut files = entries(5);
    files.reverse();
    let stats = prune(&files, 300, &|_| true);
    assert_eq!(stats.0, 3, "应删掉 3 个最旧的");
    assert_eq!(stats.1, 300);
    assert_eq!(stats.2, vec![4, 3, 2]);
    // A file that cannot be dropped is passed over.
    let stats = prune(&files, 300, &|i| i != 4);
    assert_eq!(stats.2, vec![3, 2, 1]);
}

#[test]
fn files_of_the_same_age_keep_their_order() {
    let files = vec![
        CacheEntry { size: 1, atime: 5 },
        CacheEntry { size: 2, atime: -5 },
        CacheEntry { size: 3, atime: 5 },
    ];
    assert_eq!(drop_order(&files), vec![1, 0, 2]);
    assert_eq!(cache_size(&files), Some(6));
    let huge = vec![
        CacheEntry { size: u64::MAX, atime: 0 },
        CacheEntry { size: 1, atime: 0 },
    ];
    assert_eq!(cache_size(&huge), None);
    assert!(PruneRun::start(&huge, 10).is_none());
}

#[test]
fn the_cache_is_looked_through_once_a_minute() {
    assert!(!enforce_if_needed(1000, 941));
    assert!(enforce_if_needed(1000, 940));
    assert!(!enforce_if_needed(900, 1000));
}
