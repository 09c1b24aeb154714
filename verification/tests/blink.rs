use sp::analyze::{pending_targets, AnalyzeRun, Target};
use sp::blink::{nms, preview_rgb, BlinkRun, EyeOutcome};

#[derive(Clone, Copy)]
struct FaceBox {
    x: f32,
    y: f32,
    w: f32,
    h: f32,
    score: f32,
}

fn iou(a: &FaceBox, b: &FaceBox) -> f32 {
    let x0 = a.x.max(b.x);
    let y0 = a.y.max(b.y);
    let x1 = (a.x + a.w).min(b.x + b.w);
    let y1 = (a.y + a.h).min(b.y + b.h);
    let inter = (x1 - x0).max(0.0) * (y1 - y0).max(0.0);
    let union = a.w * a.h + b.w * b.h - inter;
    if union <= 0.0 {
        0.0
    } else {
        inter / union
    }
}

/// The boxes that are kept, best first.
fn kept_boxes(mut boxes: Vec<FaceBox>) -> Vec<FaceBox> {
    boxes.sort_by(|a, b| b.score.total_cmp(&a.score));
    let table: Vec<Vec<bool>> = (0..boxes.len())
        .map(|i| (0..i).map(|j| iou(&boxes[j], &boxes[i]) > 0.3).collect())
        .collect();
    nms(&table).into_iter().map(|i| boxes[i]).collect()
}

#[test]
fn nms_collapses_duplicate_boxes() {
    let b = |x: f32, score: f32| FaceBox {
        x,
        y: 0.0,
        w: 10.0,
        h: 10.0,
        score,
    };
    let kept = kept_boxes(vec![b(0.0, 0.9), b(0.5, 0.8), b(1.0, 0.95), b(100.0, 0.7)]);
    let xs: Vec<f32> = kept.iter().map(|k| k.x).collect();
    assert!(
        xs.contains(&1.0) && xs.contains(&100.0),
        "该留下分数最高的那个和不重叠的那个：{xs:?}"
    );
    assert!(!xs.contains(&0.0), "被压掉的重叠框不该留下：{xs:?}");
}

#[test]
fn no_more_faces_than_the_limit() {
    let table: Vec<Vec<bool>> = (0..20).map(|i| vec![false; i]).collect();
    assert_eq!(nms(&table), (0..12).collect::<Vec<usize>>());
    assert!(nms(&vec![]).is_empty());
}

#[test]
fn small_previews_show_no_eyes() {
    let jpeg = |w: u32, h: u32| {
        let img = image::DynamicImage::ImageRgb8(image::RgbImage::from_pixel(
            w,
            h,
            image::Rgb([10, 200, 30]),
        ));
        let mut out = Vec::new();
        image::codecs::jpeg::JpegEncoder::new_with_quality(&mut out, 95)
            .encode_image(&img)
            .unwrap();
        out
    };
    let rgb = preview_rgb(&jpeg(800, 400)).unwrap();
    assert_eq!((rgb.width, rgb.height), (800, 400));
    assert_eq!(rgb.data.len(), 800 * 400 * 3);
    assert!(rgb.data[1] > 190 && rgb.data[0] < 20);
    assert!(preview_rgb(&jpeg(800, 300)).is_none());
    assert!(preview_rgb(&[1, 2, 3]).is_none());
    // The smallest preview that is large enough is taken before the largest, however
    // narrow it is.
    let mut file = jpeg(2600, 1700);
    file.extend_from_slice(&jpeg(1300, 300));
    let rgb = preview_rgb(&file).unwrap();
    assert_eq!((rgb.width, rgb.height), (1300, 300));
    // One that cannot be decoded is passed over.
    let at = file.len() - 2;
    let start = (0..at).rev().find(|&i| file[i] == 0xff && file[i + 1] == 0xc0).unwrap();
    file[start + 14] = 0x22;
    let rgb = preview_rgb(&file).unwrap();
    assert_eq!((rgb.width, rgb.height), (2600, 1700));
}

#[test]
fn runs_are_counted() {
    let mut run = BlinkRun::start(5);
    let p = run.batch(&vec![EyeOutcome::Closed, EyeOutcome::Failed, EyeOutcome::Open]);
    assert_eq!((p.done, p.total, p.closed, p.failed), (3, 5, 1, 1));
    let s = run.summary(2, true, 9);
    assert_eq!((s.checked, s.closed, s.failed, s.remaining, s.stopped), (2, 1, 1, 2, true));

    let mut run = AnalyzeRun::start(4);
    run.batch(&vec![true, false]);
    let p = run.batch(&vec![true, true]);
    assert_eq!((p.done, p.total), (4, 4));
    let s = run.summary(7, 1);
    assert_eq!((s.analyzed, s.failed, s.remaining), (3, 1, 7));
}

#[test]
fn only_photos_in_the_folder_are_judged() {
    let t = |id: i64, path: &str| Target {
        id,
        path: path.to_string(),
    };
    let rows = vec![t(1, "/a/x.NEF"), t(2, "/ab/x.NEF"), t(3, "/a/b/x.NEF")];
    let ids = |roots: Vec<String>| -> Vec<i64> {
        pending_targets(&rows, &roots).iter().map(|x| x.id).collect()
    };
    assert_eq!(ids(vec![]), vec![1, 2, 3]);
    assert_eq!(ids(vec!["/a".to_string()]), vec![1, 3]);
}
