//! Decoding, scaling and encoding pictures, as the `image` crate does it.
//!
//! A picture of that crate stays in its own type. What the contracts say of it,
//! they say over its size and what it holds.
use vstd::prelude::*;

use crate::frame::{can_be_decoded, can_decode};
use crate::picture::RgbBuf;

verus! {

#[verifier::external_type_specification]
#[verifier::external_body]
pub struct ExDynamicImage(image::DynamicImage);

#[verifier::external_type_specification]
#[verifier::external_body]
pub struct ExImageError(image::ImageError);

/// How large the samples of a picture are.
#[derive(Debug, Clone, Copy, PartialEq, Eq, Structural)]
pub enum Depth {
    Byte,
    TwoBytes,
    Float,
    Other,
}

/// What a picture holds: its size, how large its samples are, its pixel format
/// together with its colour space (as a number), and its samples.
pub struct PictureModel {
    pub width: nat,
    pub height: nat,
    pub depth: Depth,
    pub format: nat,
    pub samples: Seq<u8>,
}

/// The larger one of two numbers.
pub open spec fn larger(a: nat, b: nat) -> nat {
    if a < b {
        b
    } else {
        a
    }
}

impl PictureModel {
    /// The pixel `(x, y)`: its samples, of those that stand row by row.
    pub open spec fn pixel(self, x: int, y: int) -> Seq<u8>
        recommends
            0 <= x < self.width,
            0 <= y < self.height,
    {
        let n = self.samples.len() as int / (self.width * self.height) as int;
        let at = n * (y * self.width + x);
        self.samples.subrange(at, at + n)
    }

    pub open spec fn long_side(self) -> nat {
        larger(self.width, self.height)
    }

    pub open spec fn short_side(self) -> nat {
        if self.width < self.height {
            self.width
        } else {
            self.height
        }
    }

    /// How many pixels of the picture become one, at most, when it is scaled down so
    /// that its longer side has `size` pixels and its shorter side at least one.
    pub open spec fn block(self, size: u32) -> nat
        recommends
            size > 0,
            self.long_side() > 0,
    {
        (self.long_side() / size as nat + 4) * (self.short_side() / larger(
            1,
            self.short_side() * size as nat / self.long_side(),
        ) + 4)
    }

    /// How many pixels may become one. Their samples are added up in 32 bits, so the
    /// larger the samples, the fewer have room; floating-point samples are added up as
    /// such, and only their number has to fit.
    pub open spec fn most_in_block(self) -> nat {
        match self.depth {
            Depth::Byte => 16_800_000,
            Depth::TwoBytes => 65_500,
            Depth::Float => 4_294_967_295,
            Depth::Other => 0,
        }
    }

    /// The picture can be scaled down so that it fits into a square of this size.
    pub open spec fn can_shrink(self, size: u32) -> bool {
        &&& 0 < size
        &&& 0 < self.long_side() <= 0xff_ffff
        &&& self.block(size) <= self.most_in_block()
    }
}

/// The orientation in which a picture has to be turned before it is shown.
#[derive(Debug, Clone, Copy, PartialEq, Eq, Structural)]
pub enum Turn {
    FlipHorizontal,
    Rotate180,
    FlipVertical,
    Rotate90FlipH,
    Rotate90,
    Rotate270FlipH,
    Rotate270,
}

impl Turn {
    /// Width and height change places.
    pub open spec fn swaps(self) -> bool {
        self == Turn::Rotate90 || self == Turn::Rotate270 || self == Turn::Rotate90FlipH || self
            == Turn::Rotate270FlipH
    }

    /// Where the pixel `(x, y)` of a picture of `w` by `h` pixels goes. Turns are
    /// clockwise, and a flip comes after the turn.
    pub open spec fn places(self, w: int, h: int, x: int, y: int) -> (int, int) {
        match self {
            Turn::FlipHorizontal => (w - 1 - x, y),
            Turn::Rotate180 => (w - 1 - x, h - 1 - y),
            Turn::FlipVertical => (x, h - 1 - y),
            Turn::Rotate90FlipH => (y, x),
            Turn::Rotate90 => (h - 1 - y, x),
            Turn::Rotate270FlipH => (h - 1 - y, w - 1 - x),
            Turn::Rotate270 => (y, w - 1 - x),
        }
    }
}

/// A grey picture: one byte for each pixel, row by row.
#[derive(Debug, Clone)]
pub struct GrayBuf {
    pub width: u32,
    pub height: u32,
    pub data: Vec<u8>,
}

impl GrayBuf {
    pub open spec fn wf(self) -> bool {
        self.data@.len() == self.width as int * self.height as int
    }
}

/// What a picture of the `image` crate holds.
pub uninterp spec fn picture(img: image::DynamicImage) -> PictureModel;

/// The picture in a JPEG file, as `image::load_from_memory_with_format` decodes it;
/// none where that fails.
pub uninterp spec fn jpeg_picture(data: Seq<u8>) -> Option<PictureModel>;

/// What `image::DynamicImage::thumbnail` makes of a picture for a square of a size.
pub uninterp spec fn thumbnail_of(p: PictureModel, size: u32) -> PictureModel;

/// What `image::DynamicImage::resize` makes of a picture with the triangle filter.
pub uninterp spec fn resized(p: PictureModel, w: u32, h: u32) -> PictureModel;

/// What `image::DynamicImage::apply_orientation` makes of a picture.
pub uninterp spec fn oriented(p: PictureModel, t: Turn) -> PictureModel;

/// The JPEG file that the `image` crate's encoder makes of a picture; none where it
/// fails.
pub uninterp spec fn jpeg_bytes(p: PictureModel, quality: u8) -> Option<Seq<u8>>;

/// The pixels that `image::DynamicImage::to_luma8` makes of a picture. The weighted sum
/// over the colours is taken with or without fused multiplication and addition; which
/// of the two is settled when the crate is built.
pub uninterp spec fn gray_of(p: PictureModel, fused: bool) -> Seq<u8>;

/// The pixels that `image::DynamicImage::to_rgb8` makes of a picture.
pub uninterp spec fn rgb_of(p: PictureModel) -> Seq<u8>;

/// `image::load_from_memory_with_format` for JPEG data. The contract names the
/// picture, and says of an error only that there is no picture. It is not called on
/// data whose frame headers the decoder does not expect. What is said holds of the
/// crate as it is built for use, where the sums of damaged data may wrap around.
#[verifier::external_body]
fn load_jpeg(data: &[u8]) -> (r: Result<image::DynamicImage, image::ImageError>)
    requires
        can_be_decoded(data@),
    ensures
        r is Ok <==> jpeg_picture(data@) is Some,
        r matches Ok(img) ==> jpeg_picture(data@) == Some(picture(img)),
{
    image::load_from_memory_with_format(data, image::ImageFormat::Jpeg)
}

/// The picture in the content of a JPEG file; none where it cannot be decoded.
pub open spec fn decoded(data: Seq<u8>) -> Option<PictureModel> {
    if can_be_decoded(data) {
        jpeg_picture(data)
    } else {
        None
    }
}

/// Decodes the content of a JPEG file.
pub fn decode_jpeg(data: &[u8]) -> (r: Option<image::DynamicImage>)
    ensures
        match r {
            Some(img) => decoded(data@) == Some(picture(img)),
            None => decoded(data@) is None,
        },
{
    if !can_decode(data) {
        return None;
    }
    match load_jpeg(data) {
        Ok(img) => Some(img),
        Err(_) => None,
    }
}

/// `image::DynamicImage::width` gives the width in pixels.
#[verifier::external_body]
pub(crate) fn width_of(img: &image::DynamicImage) -> (r: u32)
    ensures
        r == picture(*img).width,
{
    img.width()
}

/// `image::DynamicImage::height` gives the height in pixels.
#[verifier::external_body]
pub(crate) fn height_of(img: &image::DynamicImage) -> (r: u32)
    ensures
        r == picture(*img).height,
{
    img.height()
}

/// `image::DynamicImage::color` gives the pixel format; the contract says how large
/// its samples are.
#[verifier::external_body]
pub(crate) fn depth_of(img: &image::DynamicImage) -> (r: Depth)
    ensures
        r == picture(*img).depth,
{
    match img.color() {
        image::ColorType::L8 => Depth::Byte,
        image::ColorType::La8 => Depth::Byte,
        image::ColorType::Rgb8 => Depth::Byte,
        image::ColorType::Rgba8 => Depth::Byte,
        image::ColorType::L16 => Depth::TwoBytes,
        image::ColorType::La16 => Depth::TwoBytes,
        image::ColorType::Rgb16 => Depth::TwoBytes,
        image::ColorType::Rgba16 => Depth::TwoBytes,
        image::ColorType::Rgb32F => Depth::Float,
        image::ColorType::Rgba32F => Depth::Float,
        _ => Depth::Other,
    }
}

/// `image::DynamicImage::thumbnail` scales a picture down so that it fits into a
/// square of the given size. The contract names the result and says that it fits. It
/// is not called to enlarge a picture, nor where a sum of samples could overflow.
#[verifier::external_body]
pub(crate) fn thumbnail(img: &image::DynamicImage, size: u32) -> (r: image::DynamicImage)
    requires
        size < picture(*img).long_side(),
        picture(*img).can_shrink(size),
    ensures
        picture(r) == thumbnail_of(picture(*img), size),
        picture(r).width <= size,
        picture(r).height <= size,
{
    img.thumbnail(size, size)
}

/// `image::DynamicImage::resize` with the triangle filter scales a picture to fit
/// into the given size. The contract names the result, and says that it fits.
#[verifier::external_body]
pub(crate) fn resize(img: &image::DynamicImage, w: u32, h: u32) -> (r: image::DynamicImage)
    requires
        0 < w <= 4096,
        0 < h <= 4096,
    ensures
        picture(r) == resized(picture(*img), w, h),
        picture(r).width <= w,
        picture(r).height <= h,
{
    img.resize(w, h, image::imageops::FilterType::Triangle)
}

/// `image::DynamicImage::apply_orientation`. The contract names the result, and says
/// that a quarter turn swaps the sides and any other turn keeps them, and that every
/// pixel goes unchanged to where the turn places it.
#[verifier::external_body]
pub(crate) fn orient(img: &mut image::DynamicImage, t: Turn)
    ensures
        picture(*final(img)) == oriented(picture(*old(img)), t),
        t.swaps() ==> picture(*final(img)).width == picture(*old(img)).height && picture(
            *final(img),
        ).height == picture(*old(img)).width,
        !t.swaps() ==> picture(*final(img)).width == picture(*old(img)).width && picture(
            *final(img),
        ).height == picture(*old(img)).height,
        forall|x: int, y: int|
            #![trigger picture(*old(img)).pixel(x, y)]
            0 <= x < picture(*old(img)).width && 0 <= y < picture(*old(img)).height ==> {
                let to = t.places(
                    picture(*old(img)).width as int,
                    picture(*old(img)).height as int,
                    x,
                    y,
                );
                picture(*final(img)).pixel(to.0, to.1) == picture(*old(img)).pixel(x, y)
            },
{
    img.apply_orientation(match t {
        Turn::FlipHorizontal => image::metadata::Orientation::FlipHorizontal,
        Turn::Rotate180 => image::metadata::Orientation::Rotate180,
        Turn::FlipVertical => image::metadata::Orientation::FlipVertical,
        Turn::Rotate90FlipH => image::metadata::Orientation::Rotate90FlipH,
        Turn::Rotate90 => image::metadata::Orientation::Rotate90,
        Turn::Rotate270FlipH => image::metadata::Orientation::Rotate270FlipH,
        Turn::Rotate270 => image::metadata::Orientation::Rotate270,
    })
}

/// `image::codecs::jpeg::JpegEncoder::encode_image`. The contract names the bytes.
#[verifier::external_body]
pub(crate) fn encode_jpeg(img: &image::DynamicImage, quality: u8) -> (r: Result<
    Vec<u8>,
    image::ImageError,
>)
    requires
        1 <= quality <= 100,
    ensures
        r is Ok <==> jpeg_bytes(picture(*img), quality) is Some,
        r matches Ok(v) ==> jpeg_bytes(picture(*img), quality) == Some(v@),
{
    let mut out = Vec::new();
    image::codecs::jpeg::JpegEncoder::new_with_quality(&mut out, quality).encode_image(img)?;
    Ok(out)
}

/// `image::DynamicImage::to_luma8`: the picture in grey, one byte for each pixel.
/// The contract names the pixels, up to how the crate was built.
#[verifier::external_body]
pub(crate) fn to_gray(img: &image::DynamicImage) -> (r: GrayBuf)
    ensures
        r.wf(),
        r.width == picture(*img).width,
        r.height == picture(*img).height,
        exists|fused: bool| r.data@ == #[trigger] gray_of(picture(*img), fused),
{
    let g = img.to_luma8();
    GrayBuf { width: g.width(), height: g.height(), data: g.pixels().map(|p| p.0[0]).collect() }
}

/// `image::DynamicImage::to_rgb8`: the picture in colour, three bytes for each
/// pixel. The contract names the pixels.
#[verifier::external_body]
pub(crate) fn to_rgb(img: &image::DynamicImage) -> (r: RgbBuf)
    ensures
        r.wf(),
        r.width == picture(*img).width,
        r.height == picture(*img).height,
        r.data@ == rgb_of(picture(*img)),
{
    let c = img.to_rgb8();
    RgbBuf { width: c.width(), height: c.height(), data: c.pixels().flat_map(|p| p.0).collect() }
}

} // verus!
