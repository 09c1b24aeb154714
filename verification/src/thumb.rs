//! Thumbnails: their names in the cache, how they are made, how many are made at a
//! time, and how the cache is kept small.
use vstd::prelude::*;

use base64::Engine;

use crate::filepath::{join_path, path_in};
use crate::hash::{blake3_text, hash_prefix, is_hex, push_all};
use crate::image_io::{
    decode_jpeg,
    decoded,
    depth_of,
    encode_jpeg,
    height_of,
    jpeg_bytes,
    larger,
    orient,
    oriented,
    picture,
    thumbnail,
    thumbnail_of,
    width_of,
    Depth,
    PictureModel,
    Turn,
};
use crate::orientation::belongs_at;
use crate::preview::{best_jpeg_bytes, is_best, jpegs, preview_route, JpegSpan};
use crate::text::{chars_of, dec, decimal, text_of};

verus! {

/// For the film strip.
pub const SIZE_MICRO: u32 = 160;

/// For the grid.
pub const SIZE_GRID: u32 = 512;

/// For a single photo.
pub const SIZE_LOUPE: u32 = 1600;

/// For looking at a photo at full size; only made when it is asked for.
pub const SIZE_PREVIEW: u32 = 4096;

/// The quality of the thumbnails.
pub const THUMB_QUALITY: u8 = 85;

/// The sizes that are made when one is asked for; the first is the one asked for.
/// The smallest comes with that for the grid, since both are made from one decoded
/// picture.
pub open spec fn sizes_of(size: u32) -> Seq<u32> {
    if size == SIZE_PREVIEW {
        seq![SIZE_PREVIEW]
    } else if size == SIZE_LOUPE {
        seq![SIZE_LOUPE]
    } else {
        seq![SIZE_GRID, SIZE_MICRO]
    }
}

pub fn sizes_for(size: u32) -> (r: Vec<u32>)
    ensures
        r@ == sizes_of(size),
{
    let mut v: Vec<u32> = Vec::new();
    if size == SIZE_PREVIEW {
        v.push(SIZE_PREVIEW);
    } else if size == SIZE_LOUPE {
        v.push(SIZE_LOUPE);
    } else {
        v.push(SIZE_GRID);
        v.push(SIZE_MICRO);
    }
    assert(v@ =~= sizes_of(size));
    v
}

// ---------------------------------------------------------------------------
// Names in the cache
// ---------------------------------------------------------------------------

/// What the key of a thumbnail is taken from: the fingerprint of the file and the
/// size.
pub open spec fn key_input(fingerprint: Seq<char>, size: u32) -> Seq<u8> {
    vstd::utf8::encode_utf8(fingerprint) + seq![0x7cu8] + vstd::utf8::encode_utf8(dec(size as nat))
}

pub open spec fn key_text(fingerprint: Seq<char>, size: u32) -> Seq<char> {
    blake3_text(key_input(fingerprint, size)).take(20)
}

/// The key of a thumbnail. A file that was changed has another fingerprint, and so
/// other keys: its old thumbnails are never shown again.
pub fn cache_key(fingerprint: &str, size: u32) -> (r: String)
    ensures
        r@ == key_text(fingerprint@, size),
        r@.len() == 20,
        forall|i: int| 0 <= i < 20 ==> is_hex(#[trigger] r@[i]),
{
    let mut input = vstd::slice::slice_to_vec(fingerprint.as_bytes());
    input.push(0x7c);
    let n = decimal(size as u64);
    push_all(&mut input, n.as_str().as_bytes());
    assert(input@ =~= key_input(fingerprint@, size));
    hash_prefix(input.as_slice(), 20)
}

/// The path of a thumbnail, below the directory of the cache: a directory for the
/// first two digits of the key, so that none gets too full, and in it the key and
/// the size.
pub open spec fn path_text(root: Seq<char>, fingerprint: Seq<char>, size: u32) -> Seq<char> {
    let key = key_text(fingerprint, size);
    path_in(path_in(root, key.take(2)), key + "-"@ + dec(size as nat) + ".jpg"@)
}

pub fn cache_path(root: &str, fingerprint: &str, size: u32) -> (r: String)
    ensures
        r@ == path_text(root@, fingerprint@, size),
{
    let key = cache_key(fingerprint, size);
    let v = chars_of(key.as_str());
    let bucket = text_of(&v, 0, 2);
    assert(bucket@ =~= key@.take(2));
    let n = decimal(size as u64);
    let mut name = key;
    name.push_str("-");
    name.push_str(n.as_str());
    name.push_str(".jpg");
    let dir = join_path(root, bucket.as_str());
    join_path(dir.as_str(), name.as_str())
}

proof fn lemma_dec_is_ascii(n: nat)
    ensures
        vstd::utf8::is_ascii_chars(dec(n)),
        forall|i: int| 0 <= i < dec(n).len() ==> '0' <= #[trigger] dec(n)[i] && dec(n)[i] <= '9',
    decreases n,
{
    if n >= 10 {
        lemma_dec_is_ascii(n / 10);
    }
}

proof fn lemma_dec_injective(m: nat, n: nat)
    requires
        dec(m) == dec(n),
    ensures
        m == n,
    decreases m,
{
    lemma_dec_nonempty(m / 10);
    lemma_dec_nonempty(n / 10);
    assert forall|d: int| 0 <= d <= 9 implies #[trigger] crate::text::digit(d) as int == 48 + d by {}
    if m < 10 && n < 10 {
        assert(dec(m)[0] == crate::text::digit(m as int));
        assert(dec(n)[0] == crate::text::digit(n as int));
    } else if m >= 10 && n >= 10 {
        assert(dec(m) == dec(m / 10).push(crate::text::digit((m % 10) as int)));
        assert(dec(n) == dec(n / 10).push(crate::text::digit((n % 10) as int)));
        assert(dec(m).last() == crate::text::digit((m % 10) as int));
        assert(dec(m).last() == dec(n).last());
        assert(crate::text::digit((m % 10) as int) == crate::text::digit((n % 10) as int));
        assert(dec(m).drop_last() =~= dec(m / 10));
        assert(dec(n).drop_last() =~= dec(n / 10));
        lemma_dec_injective(m / 10, n / 10);
        assert(m % 10 == n % 10);
        assert(m == m / 10 * 10 + m % 10);
    } else {
        let (small, big) = if m < 10 {
            (m, n)
        } else {
            (n, m)
        };
        assert(dec(small).len() == 1);
        assert(dec(big) == dec(big / 10).push(crate::text::digit((big % 10) as int)));
        assert(dec(big).len() >= 2);
    }
}

proof fn lemma_dec_nonempty(n: nat)
    ensures
        dec(n).len() >= 1,
{
}

/// Thumbnails of different sizes, or of files with different fingerprints, have keys
/// taken from different data.
pub proof fn law_keys_see_file_and_size(f1: Seq<char>, s1: u32, f2: Seq<char>, s2: u32)
    requires
        key_input(f1, s1) == key_input(f2, s2),
    ensures
        s1 == s2,
        f1 == f2,
{
    let a = vstd::utf8::encode_utf8(f1);
    let b = vstd::utf8::encode_utf8(f2);
    let d1 = dec(s1 as nat);
    let d2 = dec(s2 as nat);
    lemma_dec_is_ascii(s1 as nat);
    lemma_dec_is_ascii(s2 as nat);
    vstd::utf8::is_ascii_chars_encode_utf8(d1);
    vstd::utf8::is_ascii_chars_encode_utf8(d2);
    let e1 = vstd::utf8::encode_utf8(d1);
    let e2 = vstd::utf8::encode_utf8(d2);
    let k = key_input(f1, s1);
    assert(k == a + seq![0x7cu8] + e1);
    assert(k == b + seq![0x7cu8] + e2);
    assert(k.len() == a.len() + 1 + e1.len());
    assert(k.len() == b.len() + 1 + e2.len());
    assert(k[a.len() as int] == 0x7c);
    assert(k[b.len() as int] == 0x7c);
    if e1.len() < e2.len() {
        let j = a.len() - b.len() - 1;
        assert((b + seq![0x7cu8]).len() == b.len() + 1);
        assert((b + seq![0x7cu8] + e2)[a.len() as int] == e2[a.len() - (b + seq![0x7cu8]).len()]);
        assert(k[a.len() as int] == e2[j]);
        assert(e2[j] == d2[j] as u8);
        assert('0' <= d2[j] && d2[j] <= '9');
    } else if e2.len() < e1.len() {
        let j = b.len() - a.len() - 1;
        assert((a + seq![0x7cu8]).len() == a.len() + 1);
        assert((a + seq![0x7cu8] + e1)[b.len() as int] == e1[b.len() - (a + seq![0x7cu8]).len()]);
        assert(k[b.len() as int] == e1[j]);
        assert(e1[j] == d1[j] as u8);
        assert('0' <= d1[j] && d1[j] <= '9');
    }
    assert(a =~= k.take(a.len() as int));
    assert(b =~= k.take(b.len() as int));
    assert(e1 =~= k.skip(a.len() as int + 1));
    assert(e2 =~= k.skip(b.len() as int + 1));
    assert(d1 =~= d2) by {
        assert(d1.len() == d2.len());
        assert forall|i: int| 0 <= i < d1.len() implies d1[i] == d2[i] by {
            assert(e1[i] == d1[i] as u8);
            assert(e2[i] == d2[i] as u8);
            assert('0' <= d1[i] && d1[i] <= '9');
            assert('0' <= d2[i] && d2[i] <= '9');
        }
    }
    lemma_dec_injective(s1 as nat, s2 as nat);
    vstd::utf8::encode_utf8_decode_utf8(f1);
    vstd::utf8::encode_utf8_decode_utf8(f2);
}

// ---------------------------------------------------------------------------
// Decoding
// ---------------------------------------------------------------------------

/// The ways to a picture, the fastest first: the preview in the file, the file as a
/// plain picture, the RAW data, and when all else fails a stand-in.
#[derive(Debug, Clone, Copy, PartialEq, Eq, Structural)]
pub enum Level {
    Preview,
    Bitmap,
    Raw,
    Placeholder,
}

impl Level {
    pub open spec fn after(self) -> Level {
        match self {
            Level::Preview => Level::Bitmap,
            Level::Bitmap => Level::Raw,
            _ => Level::Placeholder,
        }
    }

    /// What to try when this way failed.
    pub fn next(self) -> (r: Level)
        ensures
            r == self.after(),
    {
        match self {
            Level::Preview => Level::Bitmap,
            Level::Bitmap => Level::Raw,
            Level::Raw => Level::Placeholder,
            Level::Placeholder => Level::Placeholder,
        }
    }

    /// The name under which the way is recorded; that of a preview depends on where
    /// it was found.
    pub fn route(self, preview: &'static str) -> (r: &'static str)
        ensures
            r@ == match self {
                Level::Preview => preview@,
                Level::Bitmap => "image-decode"@,
                Level::Raw => "raw-decode"@,
                Level::Placeholder => "placeholder"@,
            },
    {
        match self {
            Level::Preview => preview,
            Level::Bitmap => "image-decode",
            Level::Raw => "raw-decode",
            Level::Placeholder => "placeholder",
        }
    }
}

/// All ways to a picture are tried, in this order: the preview, the plain picture, the RAW
/// data, and last the stand-in.
pub proof fn law_all_ways_are_tried()
    ensures
        Level::Preview.after() == Level::Bitmap,
        Level::Preview.after().after() == Level::Raw,
        Level::Preview.after().after().after() == Level::Placeholder,
        forall|l: Level|
            l == Level::Preview || #[trigger] l.after() == l || exists|k: Level|
                #[trigger] k.after() == l,
{
    assert(Level::Preview.after() == Level::Bitmap);
    assert(Level::Bitmap.after() == Level::Raw);
    assert(Level::Raw.after() == Level::Placeholder);
}

/// Decoding always ends: after three failures the stand-in is shown.
pub proof fn law_decoding_always_ends(l: Level)
    ensures
        l.after().after().after() == Level::Placeholder,
        l != Level::Placeholder ==> l.after() != l,
{
}

/// The preview in the content of a file, decoded, and the route by which it was
/// found.
pub fn decode_preview(data: &[u8]) -> (r: Option<(image::DynamicImage, &'static str)>)
    ensures
        match r {
            Some((img, route)) => exists|b: JpegSpan|
                #![trigger is_best(Some(b), jpegs(data@))]
                {
                    &&& is_best(Some(b), jpegs(data@))
                    &&& decoded(data@.subrange(b.start as int, b.end as int)) == Some(
                        picture(img),
                    )
                    &&& route@ == preview_route(b)
                },
            None => is_best(None, jpegs(data@)) || exists|b: JpegSpan|
                #![trigger is_best(Some(b), jpegs(data@))]
                is_best(Some(b), jpegs(data@)) && decoded(
                    data@.subrange(b.start as int, b.end as int),
                ) is None,
        },
{
    match best_jpeg_bytes(data) {
        None => None,
        Some((bytes, route)) => match decode_jpeg(bytes.as_slice()) {
            Some(img) => Some((img, route)),
            None => None,
        },
    }
}

/// The turn that an EXIF orientation asks for; 1 and unknown numbers ask for none.
pub open spec fn turn_for(value: Option<i64>) -> Option<Turn> {
    match value {
        Some(2) => Some(Turn::FlipHorizontal),
        Some(3) => Some(Turn::Rotate180),
        Some(4) => Some(Turn::FlipVertical),
        Some(5) => Some(Turn::Rotate90FlipH),
        Some(6) => Some(Turn::Rotate90),
        Some(7) => Some(Turn::Rotate270FlipH),
        Some(8) => Some(Turn::Rotate270),
        _ => None,
    }
}

pub fn exif_orientation(value: Option<i64>) -> (r: Option<Turn>)
    ensures
        r == turn_for(value),
{
    match value {
        Some(2) => Some(Turn::FlipHorizontal),
        Some(3) => Some(Turn::Rotate180),
        Some(4) => Some(Turn::FlipVertical),
        Some(5) => Some(Turn::Rotate90FlipH),
        Some(6) => Some(Turn::Rotate90),
        Some(7) => Some(Turn::Rotate270FlipH),
        Some(8) => Some(Turn::Rotate270),
        _ => None,
    }
}

/// A picture as it is shown.
pub open spec fn upright(p: PictureModel, orientation: Option<i64>) -> PictureModel {
    match turn_for(orientation) {
        Some(t) => oriented(p, t),
        None => p,
    }
}

/// Turns a picture as its EXIF orientation asks. This comes before any scaling, which
/// would else take width for height.
pub fn make_upright(img: &mut image::DynamicImage, orientation: Option<i64>)
    ensures
        picture(*final(img)) == upright(picture(*old(img)), orientation),
        orientation is Some && 1 <= orientation->Some_0 <= 8 ==> forall|x: int, y: int, u: int, v: int|
            0 <= x < picture(*old(img)).width && 0 <= y < picture(*old(img)).height
                && #[trigger] belongs_at(
                orientation->Some_0 as int,
                picture(*old(img)).width as int,
                picture(*old(img)).height as int,
                x,
                y,
                u,
                v,
            ) ==> picture(*final(img)).pixel(u, v) == picture(*old(img)).pixel(x, y),
{
    if let Some(t) = exif_orientation(orientation) {
        orient(img, t);
    }
}

/// The picture that a thumbnail shows: scaled down to fit, never enlarged.
pub open spec fn fitted(p: PictureModel, size: u32) -> PictureModel {
    if p.width <= size && p.height <= size {
        p
    } else {
        thumbnail_of(p, size)
    }
}

/// A picture could not be encoded.
#[derive(Debug, Clone, Copy, PartialEq, Eq, Structural)]
pub enum EncodeError {
    Failed,
}

/// A thumbnail of this size can be made of the picture: it is small enough already,
/// or can be scaled down.
pub open spec fn can_fit(p: PictureModel, size: u32) -> bool {
    (p.width <= size && p.height <= size) || p.can_shrink(size)
}

/// `r` is the JPEG file of a thumbnail, or says that it could not be encoded.
pub open spec fn is_thumb(
    r: Result<Vec<u8>, EncodeError>,
    p: PictureModel,
    size: u32,
) -> bool {
    match jpeg_bytes(fitted(p, size), THUMB_QUALITY) {
        Some(b) => r is Ok && r->Ok_0@ == b,
        None => r == Err::<Vec<u8>, EncodeError>(EncodeError::Failed),
    }
}

/// A thumbnail of a picture, as a JPEG file.
pub fn encode_thumb(img: &image::DynamicImage, size: u32) -> (r: Result<Vec<u8>, EncodeError>)
    requires
        can_fit(picture(*img), size),
    ensures
        is_thumb(r, picture(*img), size),
{
    let encoded = if width_of(img) <= size && height_of(img) <= size {
        encode_jpeg(img, THUMB_QUALITY)
    } else {
        let small = thumbnail(img, size);
        encode_jpeg(&small, THUMB_QUALITY)
    };
    match encoded {
        Ok(v) => Ok(v),
        Err(_) => Err(EncodeError::Failed),
    }
}

/// A thumbnail of a picture, as a JPEG file; none where the picture is too large for
/// a thumbnail of this size.
pub fn encode_thumb_checked(img: &image::DynamicImage, size: u32) -> (r: Option<
    Result<Vec<u8>, EncodeError>,
>)
    ensures
        r is Some <==> can_fit(picture(*img), size),
        r matches Some(t) ==> is_thumb(t, picture(*img), size),
{
    let w: u32 = width_of(img);
    let h: u32 = height_of(img);
    if (w <= size && h <= size) || shrinks(w, h, depth_of(img), size) {
        Some(encode_thumb(img, size))
    } else {
        None
    }
}

/// Whether a picture of this size and depth can be scaled down to fit into a square.
fn shrinks(w: u32, h: u32, depth: Depth, size: u32) -> (r: bool)
    ensures
        forall|p: PictureModel|
            p.width == w && p.height == h && p.depth == depth ==> r == #[trigger] p.can_shrink(
                size,
            ),
{
    let (long, short) = if w < h {
        (h as u64, w as u64)
    } else {
        (w as u64, h as u64)
    };
    if size == 0 || long == 0 || long > 0xff_ffff {
        return false;
    }
    let most: u64 = match depth {
        Depth::Byte => 16_800_000,
        Depth::TwoBytes => 65_500,
        Depth::Float => 4_294_967_295,
        Depth::Other => 0,
    };
    proof {
        assert(short * size <= 0xff_ffff * 0xffff_ffff) by (nonlinear_arith)
            requires
                short <= 0xff_ffff,
                size <= 0xffff_ffff,
        ;
    }
    let kept: u64 = short * size as u64 / long;
    let rows: u64 = if kept < 1 {
        short
    } else {
        short / kept
    };
    let columns: u64 = long / size as u64;
    proof {
        assert(rows <= short) by (nonlinear_arith)
            requires
                rows == short || (kept >= 1 && rows == short as int / kept as int),
        ;
        assert(columns <= long) by (nonlinear_arith)
            requires
                columns == long as int / size as int,
                size > 0,
        ;
        assert((columns + 4) * (rows + 4) <= 0x100_0003 * 0x100_0003) by (nonlinear_arith)
            requires
                0 <= columns <= 0xff_ffff,
                0 <= rows <= 0xff_ffff,
        ;
    }
    proof {
        assert(short as int / 1 == short);
        assert forall|p: PictureModel| p.width == w && p.height == h implies #[trigger] p.block(
            size,
        ) == (columns + 4) * (rows + 4) by {
            assert(p.long_side() == long && p.short_side() == short);
            assert(larger(1, p.short_side() * size as nat / p.long_side()) == larger(
                1,
                kept as nat,
            ));
        }
    }
    (columns + 4) * (rows + 4) <= most
}

// ---------------------------------------------------------------------------
// Making what is missing
// ---------------------------------------------------------------------------

/// A thumbnail, and how it was come by.
#[derive(Debug, Clone)]
pub struct ThumbInfo {
    pub path: String,
    /// cached, or the way by which the picture was decoded.
    pub route: String,
    /// The size of the picture before it was turned and scaled; 0 for a thumbnail
    /// from the cache.
    pub source_width: u32,
    pub source_height: u32,
    pub from_cache: bool,
}

/// What a `ThumbInfo` holds.
pub struct ThumbModel {
    pub path: Seq<char>,
    pub route: Seq<char>,
    pub source_width: u32,
    pub source_height: u32,
    pub from_cache: bool,
}

impl View for ThumbInfo {
    type V = ThumbModel;

    open spec fn view(&self) -> ThumbModel {
        ThumbModel {
            path: self.path@,
            route: self.route@,
            source_width: self.source_width,
            source_height: self.source_height,
            from_cache: self.from_cache,
        }
    }
}

/// Where the thumbnails of a file belong, one path for each size.
pub fn thumb_paths(root: &str, fingerprint: &str, sizes: &Vec<u32>) -> (r: Vec<String>)
    ensures
        r@.len() == sizes@.len(),
        forall|i: int|
            0 <= i < sizes@.len() ==> (#[trigger] r@[i])@ == path_text(
                root@,
                fingerprint@,
                sizes@[i],
            ),
{
    let mut out: Vec<String> = Vec::new();
    for i in 0..sizes.len()
        invariant
            out@.len() == i,
            forall|j: int|
                0 <= j < i ==> (#[trigger] out@[j])@ == path_text(root@, fingerprint@, sizes@[j]),
    {
        let p = cache_path(root, fingerprint, sizes[i]);
        out.push(p);
    }
    out
}

/// Whether every thumbnail is in the cache, so that nothing has to be decoded.
pub fn all_cached(cached: &Vec<bool>) -> (r: bool)
    ensures
        r == forall|i: int| 0 <= i < cached@.len() ==> #[trigger] cached@[i],
{
    for i in 0..cached.len()
        invariant
            forall|j: int| 0 <= j < i ==> #[trigger] cached@[j],
    {
        if !cached[i] {
            return false;
        }
    }
    true
}

/// The positions of the thumbnails that are not in the cache, in their order.
pub open spec fn missing_in(cached: Seq<bool>) -> Seq<usize>
    decreases cached.len(),
{
    if cached.len() == 0 {
        Seq::empty()
    } else if cached.last() {
        missing_in(cached.drop_last())
    } else {
        missing_in(cached.drop_last()).push((cached.len() - 1) as usize)
    }
}

/// Which thumbnails have to be made.
pub fn missing(cached: &Vec<bool>) -> (r: Vec<usize>)
    ensures
        r@ == missing_in(cached@),
{
    let mut out: Vec<usize> = Vec::new();
    for i in 0..cached.len()
        invariant
            out@ == missing_in(cached@.take(i as int)),
    {
        proof {
            assert(cached@.take(i + 1).drop_last() =~= cached@.take(i as int));
        }
        if !cached[i] {
            out.push(i);
        }
    }
    assert(cached@.take(cached@.len() as int) =~= cached@);
    out
}

/// Exactly the thumbnails that are not in the cache are made, each once.
pub proof fn law_only_missing_thumbnails_are_made(cached: Seq<bool>, i: usize)
    requires
        cached.len() <= usize::MAX,
    ensures
        missing_in(cached).contains(i) <==> i < cached.len() && !cached[i as int],
        missing_in(cached).no_duplicates(),
        forall|k: int| 0 <= k < missing_in(cached).len() ==> #[trigger] missing_in(cached)[k]
            < cached.len(),
    decreases cached.len(),
{
    if cached.len() > 0 {
        let front = cached.drop_last();
        law_only_missing_thumbnails_are_made(front, i);
        let rest = missing_in(front);
        let all = missing_in(cached);
        if rest.contains(i) {
            let k = choose|k: int| 0 <= k < rest.len() && rest[k] == i;
            assert(all[k] == i);
        }
        if !cached.last() {
            assert(all[rest.len() as int] == cached.len() - 1);
            if all.contains(i) && i != cached.len() - 1 {
                let k = choose|k: int| 0 <= k < all.len() && all[k] == i;
                assert(rest[k] == i);
            }
        }
    }
}

/// What is reported of a thumbnail that was in the cache, or was made.
pub open spec fn info_for(
    path: Seq<char>,
    cached: bool,
    route: Seq<char>,
    width: u32,
    height: u32,
) -> ThumbModel {
    if cached {
        ThumbModel {
            path,
            route: "cached"@,
            source_width: 0,
            source_height: 0,
            from_cache: true,
        }
    } else {
        ThumbModel { path, route, source_width: width, source_height: height, from_cache: false }
    }
}

/// What is reported of the thumbnails of a file, one for each path and in their
/// order; `cached` says which of them were in the cache before.
pub fn ensure(
    paths: &Vec<String>,
    cached: &Vec<bool>,
    route: &str,
    source_width: u32,
    source_height: u32,
) -> (r: Vec<ThumbInfo>)
    requires
        paths@.len() == cached@.len(),
    ensures
        r@.len() == paths@.len(),
        forall|i: int|
            0 <= i < paths@.len() ==> (#[trigger] r@[i])@ == info_for(
                paths@[i]@,
                cached@[i],
                route@,
                source_width,
                source_height,
            ),
{
    let mut out: Vec<ThumbInfo> = Vec::new();
    for i in 0..paths.len()
        invariant
            paths@.len() == cached@.len(),
            out@.len() == i,
            forall|j: int|
                0 <= j < i ==> (#[trigger] out@[j])@ == info_for(
                    paths@[j]@,
                    cached@[j],
                    route@,
                    source_width,
                    source_height,
                ),
    {
        let info = if cached[i] {
            ThumbInfo {
                path: paths[i].clone(),
                route: "cached".to_string(),
                source_width: 0,
                source_height: 0,
                from_cache: true,
            }
        } else {
            ThumbInfo {
                path: paths[i].clone(),
                route: route.to_string(),
                source_width,
                source_height,
                from_cache: false,
            }
        };
        out.push(info);
    }
    out
}

/// Bytes in base64.
pub uninterp spec fn base64_text(data: Seq<u8>) -> Seq<char>;

/// `base64::Engine::encode` with the standard alphabet and padding. The contract
/// names the text.
#[verifier::external_body]
fn encode_base64(data: &[u8]) -> (r: String)
    ensures
        r@ == base64_text(data@),
{
    base64::engine::general_purpose::STANDARD.encode(data)
}

/// A JPEG file as the address of a picture, so that it can be shown without being
/// served.
pub fn data_url(jpeg: &[u8]) -> (r: String)
    ensures
        r@ == "data:image/jpeg;base64,"@ + base64_text(jpeg@),
{
    let text = encode_base64(jpeg);
    crate::text::cat("data:image/jpeg;base64,", text.as_str())
}

/// A thumbnail lies in a directory of the cache that is named by the first two digits of
/// its key, and is named by its key and its size.
pub proof fn law_thumbnails_lie_by_their_keys(root: Seq<char>, fingerprint: Seq<char>, size: u32)
    requires
        root.len() > 0,
        root.last() != '/',
        key_text(fingerprint, size).len() == 20,
        key_text(fingerprint, size)[1] != '/',
    ensures
        ({
            let key = key_text(fingerprint, size);
            path_text(root, fingerprint, size) == root + seq!['/', key[0], key[1], '/'] + key
                + seq!['-'] + dec(size as nat) + seq!['.', 'j', 'p', 'g']
        }),
{
    reveal_strlit("-");
    reveal_strlit(".jpg");
    let key = key_text(fingerprint, size);
    let dir = path_in(root, key.take(2));
    assert(dir =~= root + seq!['/', key[0], key[1]]);
    assert(dir.last() == key[1]);
    assert(path_text(root, fingerprint, size) =~= root + seq!['/', key[0], key[1], '/'] + key
        + seq!['-'] + dec(size as nat) + seq!['.', 'j', 'p', 'g']);
}

} // verus!
