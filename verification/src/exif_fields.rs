//! What each EXIF field is for: which of them is recorded as what, and in which row of
//! the detail panel it is shown.
//!
//! Fields are read by their numbers, and a wrong number is not seen in the code. Here
//! the fields have the names and numbers that the EXIF standard gives them, and what is
//! recorded and shown is proved to be that of the fields with the right names.
use vstd::prelude::*;

use crate::datetime::exif_seconds;
use crate::exif_detail::{
    added,
    altitude_text,
    bias_text,
    body_rows,
    comment_text,
    detail_rows,
    dms_in,
    exposure_rows,
    flash_parts,
    flash_text,
    image_rows,
    lens_rows,
    lookup_text,
    note_rows,
    pixel_size_text,
    place_rows,
    position_in,
    time_rows,
    trim_zeros,
    zone_text,
    FloatModel,
    ItemModel,
    Table,
};
use crate::exif_doc::{
    ascii_in,
    find_in,
    latin,
    non_empty,
    ratio_in,
    uint_in,
    until_nul,
    DocModel,
    FieldModel,
    Tag,
    TagGroup,
    ValueModel,
};
use crate::indexer::{blank_lite, lite_in, shutter_form, widened, LiteModel};
use crate::text::{dec, is_space, joined, trim_back, trim_front, trimmed};

verus! {

/// The fields of the EXIF standard that are recorded or shown.
pub enum Field {
    ExposureProgram,
    ExposureMode,
    ExposureBiasValue,
    MeteringMode,
    Flash,
    BrightnessValue,
    RecommendedExposureIndex,
    LensMake,
    LensModel,
    LensSerialNumber,
    FocalLength,
    FocalLengthIn35mmFilm,
    MaxApertureValue,
    SubjectDistance,
    DigitalZoomRatio,
    Make,
    Model,
    BodySerialNumber,
    Software,
    SensingMethod,
    Orientation,
    ColorSpace,
    WhiteBalance,
    LightSource,
    SceneCaptureType,
    Contrast,
    Saturation,
    Sharpness,
    GainControl,
    CustomRendered,
    SubjectDistanceRange,
    PixelXDimension,
    PixelYDimension,
    Compression,
    PhotometricInterpretation,
    BitsPerSample,
    XResolution,
    DateTimeOriginal,
    DateTimeDigitized,
    DateTime,
    OffsetTimeOriginal,
    OffsetTime,
    SubSecTimeOriginal,
    GPSAltitude,
    ImageDescription,
    Artist,
    Copyright,
    UserComment,
    FNumber,
    ExposureTime,
    PhotographicSensitivity,
    ISOSpeed,
}

/// How the value of a field is shown.
pub enum Shown {
    /// As the text that it is.
    Text,
    /// By a name for its number.
    Named(Table),
    /// In a form of its own.
    Formed,
    /// Not in the panel.
    Nowhere,
}

pub open spec fn tiff(number: u16) -> Tag {
    Tag { group: TagGroup::Tiff, number }
}

pub open spec fn exif(number: u16) -> Tag {
    Tag { group: TagGroup::Exif, number }
}

pub open spec fn gps(number: u16) -> Tag {
    Tag { group: TagGroup::Gps, number }
}

impl Field {
    /// The group and the number that the standard gives the field.
    pub open spec fn tag(self) -> Tag {
        match self {
            Field::ExposureProgram => exif(0x8822),
            Field::ExposureMode => exif(0xa402),
            Field::ExposureBiasValue => exif(0x9204),
            Field::MeteringMode => exif(0x9207),
            Field::Flash => exif(0x9209),
            Field::BrightnessValue => exif(0x9203),
            Field::RecommendedExposureIndex => exif(0x8832),
            Field::LensMake => exif(0xa433),
            Field::LensModel => exif(0xa434),
            Field::LensSerialNumber => exif(0xa435),
            Field::FocalLength => exif(0x920a),
            Field::FocalLengthIn35mmFilm => exif(0xa405),
            Field::MaxApertureValue => exif(0x9205),
            Field::SubjectDistance => exif(0x9206),
            Field::DigitalZoomRatio => exif(0xa404),
            Field::Make => tiff(0x010f),
            Field::Model => tiff(0x0110),
            Field::BodySerialNumber => exif(0xa431),
            Field::Software => tiff(0x0131),
            Field::SensingMethod => exif(0xa217),
            Field::Orientation => tiff(0x0112),
            Field::ColorSpace => exif(0xa001),
            Field::WhiteBalance => exif(0xa403),
            Field::LightSource => exif(0x9208),
            Field::SceneCaptureType => exif(0xa406),
            Field::Contrast => exif(0xa408),
            Field::Saturation => exif(0xa409),
            Field::Sharpness => exif(0xa40a),
            Field::GainControl => exif(0xa407),
            Field::CustomRendered => exif(0xa401),
            Field::SubjectDistanceRange => exif(0xa40c),
            Field::PixelXDimension => exif(0xa002),
            Field::PixelYDimension => exif(0xa003),
            Field::Compression => tiff(0x0103),
            Field::PhotometricInterpretation => tiff(0x0106),
            Field::BitsPerSample => tiff(0x0102),
            Field::XResolution => tiff(0x011a),
            Field::DateTimeOriginal => exif(0x9003),
            Field::DateTimeDigitized => exif(0x9004),
            Field::DateTime => tiff(0x0132),
            Field::OffsetTimeOriginal => exif(0x9011),
            Field::OffsetTime => exif(0x9010),
            Field::SubSecTimeOriginal => exif(0x9291),
            Field::GPSAltitude => gps(0x0006),
            Field::ImageDescription => tiff(0x010e),
            Field::Artist => tiff(0x013b),
            Field::Copyright => tiff(0x8298),
            Field::UserComment => exif(0x9286),
            Field::FNumber => exif(0x829d),
            Field::ExposureTime => exif(0x829a),
            Field::PhotographicSensitivity => exif(0x8827),
            Field::ISOSpeed => exif(0x8833),
        }
    }

    /// The section of the panel and the label of the row that shows the field.
    pub open spec fn place(self) -> (Seq<char>, Seq<char>) {
        match self {
            Field::ExposureProgram => ("曝光"@, "曝光程序"@),
            Field::ExposureMode => ("曝光"@, "曝光模式"@),
            Field::ExposureBiasValue => ("曝光"@, "曝光补偿"@),
            Field::MeteringMode => ("曝光"@, "测光模式"@),
            Field::Flash => ("曝光"@, "闪光灯"@),
            Field::BrightnessValue => ("曝光"@, "亮度（APEX）"@),
            Field::RecommendedExposureIndex => ("曝光"@, "推荐曝光指数"@),
            Field::LensMake => ("镜头"@, "镜头品牌"@),
            Field::LensModel => ("镜头"@, "镜头型号"@),
            Field::LensSerialNumber => ("镜头"@, "镜头序列号"@),
            Field::FocalLength => ("镜头"@, "焦距"@),
            Field::FocalLengthIn35mmFilm => ("镜头"@, "等效焦距（35mm）"@),
            Field::MaxApertureValue => ("镜头"@, "最大光圈（APEX）"@),
            Field::SubjectDistance => ("镜头"@, "对焦距离"@),
            Field::DigitalZoomRatio => ("镜头"@, "数码变焦"@),
            Field::Make => ("机身"@, "品牌"@),
            Field::Model => ("机身"@, "型号"@),
            Field::BodySerialNumber => ("机身"@, "机身序列号"@),
            Field::Software => ("机身"@, "固件 / 软件"@),
            Field::SensingMethod => ("机身"@, "感光方式"@),
            Field::Orientation => ("图像"@, "方向"@),
            Field::ColorSpace => ("图像"@, "色彩空间"@),
            Field::WhiteBalance => ("图像"@, "白平衡"@),
            Field::LightSource => ("图像"@, "光源"@),
            Field::SceneCaptureType => ("图像"@, "场景类型"@),
            Field::Contrast => ("图像"@, "对比度"@),
            Field::Saturation => ("图像"@, "饱和度"@),
            Field::Sharpness => ("图像"@, "锐度"@),
            Field::GainControl => ("图像"@, "增益控制"@),
            Field::CustomRendered => ("图像"@, "后期处理"@),
            Field::SubjectDistanceRange => ("图像"@, "主体距离范围"@),
            Field::PixelXDimension => ("图像"@, "像素尺寸"@),
            Field::PixelYDimension => ("图像"@, "像素尺寸"@),
            Field::Compression => ("图像"@, "压缩方式"@),
            Field::PhotometricInterpretation => ("图像"@, "色彩模式"@),
            Field::BitsPerSample => ("图像"@, "每像素位数"@),
            Field::XResolution => ("图像"@, "分辨率"@),
            Field::DateTimeOriginal => ("时间"@, "拍摄时间"@),
            Field::DateTimeDigitized => ("时间"@, "数字化时间"@),
            Field::DateTime => ("时间"@, "文件时间"@),
            Field::OffsetTimeOriginal => ("时间"@, "时区偏移"@),
            Field::OffsetTime => ("时间"@, "时区偏移"@),
            Field::SubSecTimeOriginal => ("时间"@, "亚秒"@),
            Field::GPSAltitude => ("位置"@, "海拔"@),
            Field::ImageDescription => ("说明"@, "图片描述"@),
            Field::Artist => ("说明"@, "作者"@),
            Field::Copyright => ("说明"@, "版权"@),
            Field::UserComment => ("说明"@, "备注"@),
            _ => (Seq::empty(), Seq::empty()),
        }
    }

    pub open spec fn shown(self) -> Shown {
        match self {
            Field::ExposureProgram => Shown::Named(Table::ExposureProgram),
            Field::ExposureMode => Shown::Named(Table::ExposureMode),
            Field::ExposureBiasValue => Shown::Formed,
            Field::MeteringMode => Shown::Named(Table::MeteringMode),
            Field::Flash => Shown::Formed,
            Field::BrightnessValue => Shown::Formed,
            Field::RecommendedExposureIndex => Shown::Formed,
            Field::LensMake => Shown::Text,
            Field::LensModel => Shown::Text,
            Field::LensSerialNumber => Shown::Text,
            Field::FocalLength => Shown::Formed,
            Field::FocalLengthIn35mmFilm => Shown::Formed,
            Field::MaxApertureValue => Shown::Formed,
            Field::SubjectDistance => Shown::Formed,
            Field::DigitalZoomRatio => Shown::Formed,
            Field::Make => Shown::Text,
            Field::Model => Shown::Text,
            Field::BodySerialNumber => Shown::Text,
            Field::Software => Shown::Text,
            Field::SensingMethod => Shown::Named(Table::SensingMethod),
            Field::Orientation => Shown::Formed,
            Field::ColorSpace => Shown::Named(Table::ColorSpace),
            Field::WhiteBalance => Shown::Named(Table::WhiteBalance),
            Field::LightSource => Shown::Named(Table::LightSource),
            Field::SceneCaptureType => Shown::Named(Table::SceneCapture),
            Field::Contrast => Shown::Named(Table::Tone),
            Field::Saturation => Shown::Named(Table::Tone),
            Field::Sharpness => Shown::Named(Table::Tone),
            Field::GainControl => Shown::Named(Table::GainControl),
            Field::CustomRendered => Shown::Named(Table::CustomRendered),
            Field::SubjectDistanceRange => Shown::Named(Table::SubjectDistanceRange),
            Field::PixelXDimension => Shown::Formed,
            Field::PixelYDimension => Shown::Formed,
            Field::Compression => Shown::Named(Table::Compression),
            Field::PhotometricInterpretation => Shown::Named(Table::Photometric),
            Field::BitsPerSample => Shown::Formed,
            Field::XResolution => Shown::Formed,
            Field::DateTimeOriginal => Shown::Text,
            Field::DateTimeDigitized => Shown::Text,
            Field::DateTime => Shown::Text,
            Field::OffsetTimeOriginal => Shown::Text,
            Field::OffsetTime => Shown::Text,
            Field::SubSecTimeOriginal => Shown::Text,
            Field::GPSAltitude => Shown::Formed,
            Field::ImageDescription => Shown::Text,
            Field::Artist => Shown::Text,
            Field::Copyright => Shown::Text,
            Field::UserComment => Shown::Formed,
            _ => Shown::Nowhere,
        }
    }

    /// The form of its own in which the value of a field is shown.
    pub open spec fn formed(self, value: ValueModel, floats: FloatModel) -> Option<Seq<char>> {
        match self {
            Field::ExposureBiasValue => bias_form(value),
            Field::Flash => flash_form(value),
            Field::BrightnessValue => match ratio_in(value) {
                Some(q) => Some(q.fixed(2)),
                None => None,
            },
            Field::RecommendedExposureIndex => match uint_in(value) {
                Some(n) => Some(dec(n as nat)),
                None => None,
            },
            Field::FocalLength => match ratio_in(value) {
                Some(q) => Some(trim_zeros(q.fixed(1)) + " mm"@),
                None => None,
            },
            Field::FocalLengthIn35mmFilm => match uint_in(value) {
                Some(n) if n > 0 => Some(dec(n as nat) + " mm"@),
                _ => None,
            },
            Field::MaxApertureValue => match ratio_in(value) {
                Some(_) => floats.max_aperture,
                None => None,
            },
            Field::SubjectDistance => match ratio_in(value) {
                Some(q) if q.positive() => Some(q.fixed(2) + " m"@),
                _ => None,
            },
            Field::DigitalZoomRatio => match ratio_in(value) {
                Some(q) if q.positive() => Some(q.fixed(2) + "×"@),
                _ => None,
            },
            Field::Orientation => match uint_in(value) {
                Some(n) if lookup_text(Table::Orientation, n) != "正常"@ => Some(
                    lookup_text(Table::Orientation, n),
                ),
                _ => None,
            },
            Field::PixelXDimension => match uint_in(value) {
                Some(n) => Some(dec(n as nat)),
                None => None,
            },
            Field::PixelYDimension => match uint_in(value) {
                Some(n) => Some(dec(n as nat)),
                None => None,
            },
            Field::BitsPerSample => match value {
                ValueModel::Short(v) if v.len() > 0 => Some(
                    joined(v.map_values(|x: u16| dec(x as nat)), " / "@),
                ),
                _ => None,
            },
            Field::XResolution => match ratio_in(value) {
                Some(q) => Some(trim_zeros(q.fixed(0)) + " "@ + "像素/单位"@),
                None => None,
            },
            Field::GPSAltitude => match ratio_in(value) {
                Some(q) => Some(q.fixed(1) + " m"@),
                None => None,
            },
            Field::UserComment => comment_form(value),
            _ => None,
        }
    }
}

/// The exposure compensation in steps, with its sign.
pub open spec fn bias_form(value: ValueModel) -> Option<Seq<char>> {
    match ratio_in(value) {
        Some(q) => Some(
            if q.near_zero() {
                "0 EV"@
            } else {
                (if q.positive() {
                    "+"@
                } else {
                    Seq::empty()
                }) + q.fixed(2) + " EV"@
            },
        ),
        None => None,
    }
}

/// Whether the flash fired, how it was set, and whether it was set against red eyes.
pub open spec fn flash_form(value: ValueModel) -> Option<Seq<char>> {
    match uint_in(value) {
        Some(n) => Some(
            (if n % 2 == 1 {
                "已闪"@
            } else {
                "未闪"@
            }) + (if n / 8 % 4 == 1 {
                " · "@ + "强制闪光"@
            } else if n / 8 % 4 == 2 {
                " · "@ + "强制关闭"@
            } else if n / 8 % 4 == 3 {
                " · "@ + "自动"@
            } else {
                Seq::empty()
            }) + (if n / 64 % 2 == 1 {
                " · "@ + "防红眼"@
            } else {
                Seq::empty()
            }),
        ),
        None => None,
    }
}

/// The text of a comment.
pub open spec fn comment_form(value: ValueModel) -> Option<Seq<char>> {
    match value {
        ValueModel::Undefined(b) => non_empty(trimmed(comment_text(b))),
        ValueModel::Byte(b) => non_empty(trimmed(comment_text(b))),
        _ => None,
    }
}

/// A file whose only field has this tag and value.
pub open spec fn only(t: Tag, value: ValueModel) -> DocModel {
    DocModel {
        fields: seq![FieldModel { group: t.group, number: t.number, ifd: 0, value }],
        version: None,
    }
}

proof fn lemma_only(t: Tag, value: ValueModel)
    ensures
        forall|u: Tag|
            #[trigger] only(t, value).get(u) == if u == t {
                Some(value)
            } else {
                None
            },
{
    let fields = only(t, value).fields;
    assert forall|u: Tag| #[trigger] only(t, value).get(u) == if u == t {
        Some(value)
    } else {
        None
    } by {
        assert(fields.drop_last().len() == 0);
        assert(find_in(fields.drop_last(), u) is None);
        assert(fields.last() == fields[0]);
    }
}

// ---------------------------------------------------------------------------
// What is recorded
// ---------------------------------------------------------------------------

/// What is recorded is what the fields of the same name hold: model, serial number and
/// lens as texts, focal length and aperture as quotients, the sensitivity by its newer
/// name or else its older one, the time of the shot or else that of the digitisation.
pub proof fn law_fields_are_recorded_by_name(doc: DocModel)
    ensures
        ({
            let r = lite_in(doc);
            &&& r.camera_model == doc.ascii(Field::Model.tag())
            &&& r.camera_serial == doc.ascii(Field::BodySerialNumber.tag())
            &&& r.lens == doc.ascii(Field::LensModel.tag())
            &&& r.focal_len == doc.ratio(Field::FocalLength.tag())
            &&& r.aperture == doc.ratio(Field::FNumber.tag())
            &&& r.orientation == widened(doc.uint(Field::Orientation.tag()))
            &&& r.width == widened(doc.uint(Field::PixelXDimension.tag()))
            &&& r.height == widened(doc.uint(Field::PixelYDimension.tag()))
            &&& r.shutter is Some <==> doc.get(Field::ExposureTime.tag()) is Some
            &&& doc.uint(Field::PhotographicSensitivity.tag()) is Some ==> r.iso == widened(
                doc.uint(Field::PhotographicSensitivity.tag()),
            )
            &&& doc.uint(Field::PhotographicSensitivity.tag()) is None ==> r.iso == widened(
                doc.uint(Field::ISOSpeed.tag()),
            )
            &&& doc.get(Field::DateTimeOriginal.tag()) matches Some(v) ==> (r.taken_at is Some ==> (
            ascii_in(v) matches Some(s) && exif_seconds(s) == r.taken_at))
            &&& doc.get(Field::DateTimeOriginal.tag()) is None && doc.get(
                Field::DateTimeDigitized.tag(),
            ) is None ==> r.taken_at is None
        }),
{
}

/// A file with a single field has just the one thing recorded that the field is for,
/// and a file with any other field alone has nothing recorded.
pub proof fn law_single_fields_are_recorded(t: Tag, value: ValueModel)
    ensures
        ({
            let text = ascii_in(value);
            let r = lite_in(only(t, value));
            let b = blank_lite();
            &&& t == Field::Model.tag() ==> r == (LiteModel { camera_model: text, ..b })
            &&& t == Field::BodySerialNumber.tag() ==> r == (LiteModel { camera_serial: text, ..b })
            &&& t == Field::LensModel.tag() ==> r == (LiteModel { lens: text, ..b })
            &&& t == Field::FocalLength.tag() ==> r == (LiteModel {
                focal_len: ratio_in(value),
                ..b
            })
            &&& t == Field::FNumber.tag() ==> r == (LiteModel { aperture: ratio_in(value), ..b })
            &&& t == Field::ExposureTime.tag() ==> r == (LiteModel {
                shutter: Some(shutter_form(value)),
                ..b
            })
            &&& t == Field::PhotographicSensitivity.tag() || t == Field::ISOSpeed.tag() ==> r == (
            LiteModel { iso: widened(uint_in(value)), ..b })
            &&& t == Field::Orientation.tag() ==> r == (LiteModel {
                orientation: widened(uint_in(value)),
                ..b
            })
            &&& t == Field::PixelXDimension.tag() ==> r == (LiteModel {
                width: widened(uint_in(value)),
                ..b
            })
            &&& t == Field::PixelYDimension.tag() ==> r == (LiteModel {
                height: widened(uint_in(value)),
                ..b
            })
            &&& t == Field::DateTimeOriginal.tag() || t == Field::DateTimeDigitized.tag() ==> r == (
            LiteModel {
                taken_at: match text {
                    Some(s) => exif_seconds(s),
                    None => None,
                },
                ..b
            })
            &&& !is_recorded(t) ==> r == b
        }),
{
    lemma_only(t, value);
}

/// The field is one of those that are recorded.
pub open spec fn is_recorded(t: Tag) -> bool {
    ||| t == Field::Model.tag()
    ||| t == Field::BodySerialNumber.tag()
    ||| t == Field::LensModel.tag()
    ||| t == Field::FocalLength.tag()
    ||| t == Field::FNumber.tag()
    ||| t == Field::ExposureTime.tag()
    ||| t == Field::PhotographicSensitivity.tag()
    ||| t == Field::ISOSpeed.tag()
    ||| t == Field::Orientation.tag()
    ||| t == Field::PixelXDimension.tag()
    ||| t == Field::PixelYDimension.tag()
    ||| t == Field::DateTimeOriginal.tag()
    ||| t == Field::DateTimeDigitized.tag()
}

/// Each thing that is recorded depends on its own fields alone: two files that agree on
/// them have the same recorded, whatever else they hold.
pub proof fn law_recorded_fields_stand_alone(a: DocModel, b: DocModel)
    ensures
        a.get(Field::Model.tag()) == b.get(Field::Model.tag()) ==> lite_in(a).camera_model
            == lite_in(b).camera_model,
        a.get(Field::BodySerialNumber.tag()) == b.get(Field::BodySerialNumber.tag()) ==> lite_in(
            a,
        ).camera_serial == lite_in(b).camera_serial,
        a.get(Field::LensModel.tag()) == b.get(Field::LensModel.tag()) ==> lite_in(a).lens
            == lite_in(b).lens,
        a.get(Field::FocalLength.tag()) == b.get(Field::FocalLength.tag()) ==> lite_in(a).focal_len
            == lite_in(b).focal_len,
        a.get(Field::FNumber.tag()) == b.get(Field::FNumber.tag()) ==> lite_in(a).aperture
            == lite_in(b).aperture,
        a.get(Field::ExposureTime.tag()) == b.get(Field::ExposureTime.tag()) ==> lite_in(a).shutter
            == lite_in(b).shutter,
        a.get(Field::PhotographicSensitivity.tag()) == b.get(Field::PhotographicSensitivity.tag())
            && a.get(Field::ISOSpeed.tag()) == b.get(Field::ISOSpeed.tag()) ==> lite_in(a).iso
            == lite_in(b).iso,
        a.get(Field::Orientation.tag()) == b.get(Field::Orientation.tag()) ==> lite_in(
            a,
        ).orientation == lite_in(b).orientation,
        a.get(Field::PixelXDimension.tag()) == b.get(Field::PixelXDimension.tag()) ==> lite_in(
            a,
        ).width == lite_in(b).width,
        a.get(Field::PixelYDimension.tag()) == b.get(Field::PixelYDimension.tag()) ==> lite_in(
            a,
        ).height == lite_in(b).height,
        a.get(Field::DateTimeOriginal.tag()) == b.get(Field::DateTimeOriginal.tag()) && a.get(
            Field::DateTimeDigitized.tag(),
        ) == b.get(Field::DateTimeDigitized.tag()) ==> lite_in(a).taken_at == lite_in(b).taken_at,
{
}

// ---------------------------------------------------------------------------
// What is shown
// ---------------------------------------------------------------------------

/// The name that a table has for the number in a value.
pub open spec fn named(table: Table, value: ValueModel) -> Option<Seq<char>> {
    match uint_in(value) {
        Some(n) => Some(lookup_text(table, n)),
        None => None,
    }
}

/// The forms that are put together from parts.
proof fn lemma_forms(t: Tag, value: ValueModel)
    ensures
        t == Field::ExposureBiasValue.tag() ==> bias_text(only(t, value)) == bias_form(value),
        t == Field::Flash.tag() ==> flash_text(only(t, value)) == flash_form(value),
{
    lemma_only(t, value);
    assert forall|q: Seq<char>| #![trigger q + " EV"@] Seq::<char>::empty() + q + " EV"@ == q + " EV"@ by {
        assert(Seq::<char>::empty() + q =~= q);
    }
    if t == Field::Flash.tag() {
        if let Some(n) = uint_in(value) {
            let parts = flash_parts(n);
            let sep = " · "@;
            reveal_with_fuel(joined, 4);
            if parts.len() == 1 {
                assert(joined(parts, sep) =~= flash_form(value)->Some_0);
            } else if parts.len() == 2 {
                assert(parts.drop_last() =~= seq![parts[0]]);
                assert(joined(parts, sep) =~= flash_form(value)->Some_0);
            } else {
                assert(parts.drop_last() =~= seq![parts[0], parts[1]]);
                assert(seq![parts[0], parts[1]].drop_last() =~= seq![parts[0]]);
                assert(joined(parts, sep) =~= flash_form(value)->Some_0);
            }
        }
    }
}

proof fn lemma_single_exposure(
    t: Tag,
    value: ValueModel,
    floats: FloatModel,
    out: Seq<ItemModel>,
)
    ensures
        t == Field::ExposureProgram.tag() ==> section_rows(0, only(t, value), floats, out) == added(
            out,
            "曝光"@,
            "曝光程序"@,
            named(Table::ExposureProgram, value),
        ),
        t == Field::ExposureMode.tag() ==> section_rows(0, only(t, value), floats, out) == added(
            out,
            "曝光"@,
            "曝光模式"@,
            named(Table::ExposureMode, value),
        ),
        t == Field::ExposureBiasValue.tag() ==> section_rows(0, only(t, value), floats, out) == added(
            out,
            "曝光"@,
            "曝光补偿"@,
            Field::ExposureBiasValue.formed(value, floats),
        ),
        t == Field::MeteringMode.tag() ==> section_rows(0, only(t, value), floats, out) == added(
            out,
            "曝光"@,
            "测光模式"@,
            named(Table::MeteringMode, value),
        ),
        t == Field::Flash.tag() ==> section_rows(0, only(t, value), floats, out) == added(
            out,
            "曝光"@,
            "闪光灯"@,
            Field::Flash.formed(value, floats),
        ),
        t == Field::BrightnessValue.tag() ==> section_rows(0, only(t, value), floats, out) == added(
            out,
            "曝光"@,
            "亮度（APEX）"@,
            Field::BrightnessValue.formed(value, floats),
        ),
        t == Field::RecommendedExposureIndex.tag() ==> section_rows(0, only(t, value), floats, out) == added(
            out,
            "曝光"@,
            "推荐曝光指数"@,
            Field::RecommendedExposureIndex.formed(value, floats),
        ),
        t != Field::ExposureProgram.tag() && t != Field::ExposureMode.tag() && t != Field::ExposureBiasValue.tag() && t != Field::MeteringMode.tag() && t != Field::Flash.tag() && t != Field::BrightnessValue.tag() && t != Field::RecommendedExposureIndex.tag() ==> section_rows(0, only(t, value), floats, out) == out,
{
    reveal(section_rows);
    lemma_only(t, value);
    lemma_forms(t, value);
}

proof fn lemma_single_lens(
    t: Tag,
    value: ValueModel,
    floats: FloatModel,
    out: Seq<ItemModel>,
)
    ensures
        t == Field::LensMake.tag() ==> section_rows(1, only(t, value), floats, out) == added(
            out,
            "镜头"@,
            "镜头品牌"@,
            ascii_in(value),
        ),
        t == Field::LensModel.tag() ==> section_rows(1, only(t, value), floats, out) == added(
            out,
            "镜头"@,
            "镜头型号"@,
            ascii_in(value),
        ),
        t == Field::LensSerialNumber.tag() ==> section_rows(1, only(t, value), floats, out) == added(
            out,
            "镜头"@,
            "镜头序列号"@,
            ascii_in(value),
        ),
        t == Field::FocalLength.tag() ==> section_rows(1, only(t, value), floats, out) == added(
            out,
            "镜头"@,
            "焦距"@,
            Field::FocalLength.formed(value, floats),
        ),
        t == Field::FocalLengthIn35mmFilm.tag() ==> section_rows(1, only(t, value), floats, out) == added(
            out,
            "镜头"@,
            "等效焦距（35mm）"@,
            Field::FocalLengthIn35mmFilm.formed(value, floats),
        ),
        t == Field::MaxApertureValue.tag() ==> section_rows(1, only(t, value), floats, out) == added(
            out,
            "镜头"@,
            "最大光圈（APEX）"@,
            Field::MaxApertureValue.formed(value, floats),
        ),
        t == Field::SubjectDistance.tag() ==> section_rows(1, only(t, value), floats, out) == added(
            out,
            "镜头"@,
            "对焦距离"@,
            Field::SubjectDistance.formed(value, floats),
        ),
        t == Field::DigitalZoomRatio.tag() ==> section_rows(1, only(t, value), floats, out) == added(
            out,
            "镜头"@,
            "数码变焦"@,
            Field::DigitalZoomRatio.formed(value, floats),
        ),
        t != Field::LensMake.tag() && t != Field::LensModel.tag() && t != Field::LensSerialNumber.tag() && t != Field::FocalLength.tag() && t != Field::FocalLengthIn35mmFilm.tag() && t != Field::MaxApertureValue.tag() && t != Field::SubjectDistance.tag() && t != Field::DigitalZoomRatio.tag() ==> section_rows(1, only(t, value), floats, out) == out,
{
    reveal(section_rows);
    lemma_only(t, value);
    lemma_forms(t, value);
}

proof fn lemma_single_body(
    t: Tag,
    value: ValueModel,
    floats: FloatModel,
    out: Seq<ItemModel>,
)
    ensures
        t == Field::Make.tag() ==> section_rows(2, only(t, value), floats, out) == added(
            out,
            "机身"@,
            "品牌"@,
            ascii_in(value),
        ),
        t == Field::Model.tag() ==> section_rows(2, only(t, value), floats, out) == added(
            out,
            "机身"@,
            "型号"@,
            ascii_in(value),
        ),
        t == Field::BodySerialNumber.tag() ==> section_rows(2, only(t, value), floats, out) == added(
            out,
            "机身"@,
            "机身序列号"@,
            ascii_in(value),
        ),
        t == Field::Software.tag() ==> section_rows(2, only(t, value), floats, out) == added(
            out,
            "机身"@,
            "固件 / 软件"@,
            ascii_in(value),
        ),
        t == Field::SensingMethod.tag() ==> section_rows(2, only(t, value), floats, out) == added(
            out,
            "机身"@,
            "感光方式"@,
            named(Table::SensingMethod, value),
        ),
        t != Field::Make.tag() && t != Field::Model.tag() && t != Field::BodySerialNumber.tag() && t != Field::Software.tag() && t != Field::SensingMethod.tag() ==> section_rows(2, only(t, value), floats, out) == out,
{
    reveal(section_rows);
    lemma_only(t, value);
    lemma_forms(t, value);
}

proof fn lemma_single_image(
    t: Tag,
    value: ValueModel,
    floats: FloatModel,
    out: Seq<ItemModel>,
)
    ensures
        t == Field::Orientation.tag() ==> section_rows(3, only(t, value), floats, out) == added(
            out,
            "图像"@,
            "方向"@,
            Field::Orientation.formed(value, floats),
        ),
        t == Field::ColorSpace.tag() ==> section_rows(3, only(t, value), floats, out) == added(
            out,
            "图像"@,
            "色彩空间"@,
            named(Table::ColorSpace, value),
        ),
        t == Field::WhiteBalance.tag() ==> section_rows(3, only(t, value), floats, out) == added(
            out,
            "图像"@,
            "白平衡"@,
            named(Table::WhiteBalance, value),
        ),
        t == Field::LightSource.tag() ==> section_rows(3, only(t, value), floats, out) == added(
            out,
            "图像"@,
            "光源"@,
            named(Table::LightSource, value),
        ),
        t == Field::SceneCaptureType.tag() ==> section_rows(3, only(t, value), floats, out) == added(
            out,
            "图像"@,
            "场景类型"@,
            named(Table::SceneCapture, value),
        ),
        t == Field::Contrast.tag() ==> section_rows(3, only(t, value), floats, out) == added(
            out,
            "图像"@,
            "对比度"@,
            named(Table::Tone, value),
        ),
        t == Field::Saturation.tag() ==> section_rows(3, only(t, value), floats, out) == added(
            out,
            "图像"@,
            "饱和度"@,
            named(Table::Tone, value),
        ),
        t == Field::Sharpness.tag() ==> section_rows(3, only(t, value), floats, out) == added(
            out,
            "图像"@,
            "锐度"@,
            named(Table::Tone, value),
        ),
        t == Field::GainControl.tag() ==> section_rows(3, only(t, value), floats, out) == added(
            out,
            "图像"@,
            "增益控制"@,
            named(Table::GainControl, value),
        ),
        t == Field::CustomRendered.tag() ==> section_rows(3, only(t, value), floats, out) == added(
            out,
            "图像"@,
            "后期处理"@,
            named(Table::CustomRendered, value),
        ),
        t == Field::SubjectDistanceRange.tag() ==> section_rows(3, only(t, value), floats, out) == added(
            out,
            "图像"@,
            "主体距离范围"@,
            named(Table::SubjectDistanceRange, value),
        ),
        t == Field::PixelXDimension.tag() ==> section_rows(3, only(t, value), floats, out) == added(
            out,
            "图像"@,
            "像素尺寸"@,
            Field::PixelXDimension.formed(value, floats),
        ),
        t == Field::PixelYDimension.tag() ==> section_rows(3, only(t, value), floats, out) == added(
            out,
            "图像"@,
            "像素尺寸"@,
            Field::PixelYDimension.formed(value, floats),
        ),
        t == Field::Compression.tag() ==> section_rows(3, only(t, value), floats, out) == added(
            out,
            "图像"@,
            "压缩方式"@,
            named(Table::Compression, value),
        ),
        t == Field::PhotometricInterpretation.tag() ==> section_rows(3, only(t, value), floats, out) == added(
            out,
            "图像"@,
            "色彩模式"@,
            named(Table::Photometric, value),
        ),
        t == Field::BitsPerSample.tag() ==> section_rows(3, only(t, value), floats, out) == added(
            out,
            "图像"@,
            "每像素位数"@,
            Field::BitsPerSample.formed(value, floats),
        ),
        t == Field::XResolution.tag() ==> section_rows(3, only(t, value), floats, out) == added(
            out,
            "图像"@,
            "分辨率"@,
            Field::XResolution.formed(value, floats),
        ),
        t != Field::Orientation.tag() && t != Field::ColorSpace.tag() && t != Field::WhiteBalance.tag() && t != Field::LightSource.tag() && t != Field::SceneCaptureType.tag() && t != Field::Contrast.tag() && t != Field::Saturation.tag() && t != Field::Sharpness.tag() && t != Field::GainControl.tag() && t != Field::CustomRendered.tag() && t != Field::SubjectDistanceRange.tag() && t != Field::PixelXDimension.tag() && t != Field::PixelYDimension.tag() && t != Field::Compression.tag() && t != Field::PhotometricInterpretation.tag() && t != Field::BitsPerSample.tag() && t != Field::XResolution.tag() ==> section_rows(3, only(t, value), floats, out) == out,
{
    reveal(section_rows);
    lemma_only(t, value);
    lemma_forms(t, value);
}

proof fn lemma_single_time(
    t: Tag,
    value: ValueModel,
    floats: FloatModel,
    out: Seq<ItemModel>,
)
    ensures
        t == Field::DateTimeOriginal.tag() ==> section_rows(4, only(t, value), floats, out) == added(
            out,
            "时间"@,
            "拍摄时间"@,
            ascii_in(value),
        ),
        t == Field::DateTimeDigitized.tag() ==> section_rows(4, only(t, value), floats, out) == added(
            out,
            "时间"@,
            "数字化时间"@,
            ascii_in(value),
        ),
        t == Field::DateTime.tag() ==> section_rows(4, only(t, value), floats, out) == added(
            out,
            "时间"@,
            "文件时间"@,
            ascii_in(value),
        ),
        t == Field::OffsetTimeOriginal.tag() ==> section_rows(4, only(t, value), floats, out) == added(
            out,
            "时间"@,
            "时区偏移"@,
            ascii_in(value),
        ),
        t == Field::OffsetTime.tag() ==> section_rows(4, only(t, value), floats, out) == added(
            out,
            "时间"@,
            "时区偏移"@,
            ascii_in(value),
        ),
        t == Field::SubSecTimeOriginal.tag() ==> section_rows(4, only(t, value), floats, out) == added(
            out,
            "时间"@,
            "亚秒"@,
            ascii_in(value),
        ),
        t != Field::DateTimeOriginal.tag() && t != Field::DateTimeDigitized.tag() && t != Field::DateTime.tag() && t != Field::OffsetTimeOriginal.tag() && t != Field::OffsetTime.tag() && t != Field::SubSecTimeOriginal.tag() ==> section_rows(4, only(t, value), floats, out) == out,
{
    reveal(section_rows);
    lemma_only(t, value);
    lemma_forms(t, value);
}

proof fn lemma_single_place(
    t: Tag,
    value: ValueModel,
    floats: FloatModel,
    out: Seq<ItemModel>,
)
    ensures
        t == Field::GPSAltitude.tag() ==> section_rows(5, only(t, value), floats, out) == added(
            out,
            "位置"@,
            "海拔"@,
            Field::GPSAltitude.formed(value, floats),
        ),
        t != Field::GPSAltitude.tag() ==> section_rows(5, only(t, value), floats, out) == out,
{
    reveal(section_rows);
    lemma_only(t, value);
    lemma_forms(t, value);
}

proof fn lemma_single_note(
    t: Tag,
    value: ValueModel,
    floats: FloatModel,
    out: Seq<ItemModel>,
)
    ensures
        t == Field::ImageDescription.tag() ==> section_rows(6, only(t, value), floats, out) == added(
            out,
            "说明"@,
            "图片描述"@,
            ascii_in(value),
        ),
        t == Field::Artist.tag() ==> section_rows(6, only(t, value), floats, out) == added(
            out,
            "说明"@,
            "作者"@,
            ascii_in(value),
        ),
        t == Field::Copyright.tag() ==> section_rows(6, only(t, value), floats, out) == added(
            out,
            "说明"@,
            "版权"@,
            ascii_in(value),
        ),
        t == Field::UserComment.tag() ==> section_rows(6, only(t, value), floats, out) == added(
            out,
            "说明"@,
            "备注"@,
            Field::UserComment.formed(value, floats),
        ),
        t != Field::ImageDescription.tag() && t != Field::Artist.tag() && t != Field::Copyright.tag() && t != Field::UserComment.tag() ==> section_rows(6, only(t, value), floats, out) == out,
{
    reveal(section_rows);
    lemma_only(t, value);
    lemma_forms(t, value);
}

/// The rows of a section behind `out`; sections are counted from 0.
#[verifier::opaque]
pub open spec fn section_rows(
    section: int,
    doc: DocModel,
    floats: FloatModel,
    out: Seq<ItemModel>,
) -> Seq<ItemModel> {
    if section == 0 {
        exposure_rows(doc, out)
    } else if section == 1 {
        lens_rows(doc, floats, out)
    } else if section == 2 {
        body_rows(doc, out)
    } else if section == 3 {
        image_rows(doc, out)
    } else if section == 4 {
        time_rows(doc, out)
    } else if section == 5 {
        place_rows(doc, floats, out)
    } else {
        note_rows(doc, out)
    }
}

/// The rows of the first `n` sections.
pub open spec fn rows_up_to(n: int, doc: DocModel, floats: FloatModel) -> Seq<ItemModel>
    decreases n,
{
    if n <= 0 {
        Seq::empty()
    } else {
        section_rows(n - 1, doc, floats, rows_up_to(n - 1, doc, floats))
    }
}

proof fn lemma_all_sections(doc: DocModel, floats: FloatModel)
    ensures
        rows_up_to(7, doc, floats) == detail_rows(doc, floats),
{
    reveal(section_rows);
    reveal_with_fuel(rows_up_to, 8);
}

/// What the rows are for a single field.
pub open spec fn shows(
    rows: Seq<ItemModel>,
    f: Field,
    value: ValueModel,
    floats: FloatModel,
) -> bool {
    let (section, label) = f.place();
    let none = Seq::<ItemModel>::empty();
    match f.shown() {
        Shown::Text => rows == added(none, section, label, ascii_in(value)),
        Shown::Named(table) => rows == added(none, section, label, named(table, value)),
        Shown::Formed => rows == added(none, section, label, f.formed(value, floats)),
        Shown::Nowhere => rows == none,
    }
}

proof fn lemma_shown_exposure(f: Field, value: ValueModel, floats: FloatModel)
    requires
        f is ExposureProgram || f is ExposureMode || f is ExposureBiasValue || f is MeteringMode || f is Flash || f is BrightnessValue || f is RecommendedExposureIndex,
    ensures
        shows(rows_up_to(7, only(f.tag(), value), floats), f, value, floats),
{
    let t = f.tag();
    let doc = only(t, value);
    reveal_with_fuel(rows_up_to, 8);
    lemma_single_exposure(t, value, floats, rows_up_to(0, doc, floats));
    lemma_single_lens(t, value, floats, rows_up_to(1, doc, floats));
    lemma_single_body(t, value, floats, rows_up_to(2, doc, floats));
    lemma_single_image(t, value, floats, rows_up_to(3, doc, floats));
    lemma_single_time(t, value, floats, rows_up_to(4, doc, floats));
    lemma_single_place(t, value, floats, rows_up_to(5, doc, floats));
    lemma_single_note(t, value, floats, rows_up_to(6, doc, floats));
}

proof fn lemma_shown_lens(f: Field, value: ValueModel, floats: FloatModel)
    requires
        f is LensMake || f is LensModel || f is LensSerialNumber || f is FocalLength || f is FocalLengthIn35mmFilm || f is MaxApertureValue || f is SubjectDistance || f is DigitalZoomRatio,
    ensures
        shows(rows_up_to(7, only(f.tag(), value), floats), f, value, floats),
{
    let t = f.tag();
    let doc = only(t, value);
    reveal_with_fuel(rows_up_to, 8);
    lemma_single_exposure(t, value, floats, rows_up_to(0, doc, floats));
    lemma_single_lens(t, value, floats, rows_up_to(1, doc, floats));
    lemma_single_body(t, value, floats, rows_up_to(2, doc, floats));
    lemma_single_image(t, value, floats, rows_up_to(3, doc, floats));
    lemma_single_time(t, value, floats, rows_up_to(4, doc, floats));
    lemma_single_place(t, value, floats, rows_up_to(5, doc, floats));
    lemma_single_note(t, value, floats, rows_up_to(6, doc, floats));
}

proof fn lemma_shown_body(f: Field, value: ValueModel, floats: FloatModel)
    requires
        f is Make || f is Model || f is BodySerialNumber || f is Software || f is SensingMethod,
    ensures
        shows(rows_up_to(7, only(f.tag(), value), floats), f, value, floats),
{
    let t = f.tag();
    let doc = only(t, value);
    reveal_with_fuel(rows_up_to, 8);
    lemma_single_exposure(t, value, floats, rows_up_to(0, doc, floats));
    lemma_single_lens(t, value, floats, rows_up_to(1, doc, floats));
    lemma_single_body(t, value, floats, rows_up_to(2, doc, floats));
    lemma_single_image(t, value, floats, rows_up_to(3, doc, floats));
    lemma_single_time(t, value, floats, rows_up_to(4, doc, floats));
    lemma_single_place(t, value, floats, rows_up_to(5, doc, floats));
    lemma_single_note(t, value, floats, rows_up_to(6, doc, floats));
}

proof fn lemma_shown_image(f: Field, value: ValueModel, floats: FloatModel)
    requires
        f is Orientation || f is ColorSpace || f is WhiteBalance || f is LightSource || f is SceneCaptureType || f is Contrast || f is Saturation || f is Sharpness || f is GainControl || f is CustomRendered || f is SubjectDistanceRange || f is PixelXDimension || f is PixelYDimension || f is Compression || f is PhotometricInterpretation || f is BitsPerSample || f is XResolution,
    ensures
        shows(rows_up_to(7, only(f.tag(), value), floats), f, value, floats),
{
    let t = f.tag();
    let doc = only(t, value);
    reveal_with_fuel(rows_up_to, 8);
    lemma_single_exposure(t, value, floats, rows_up_to(0, doc, floats));
    lemma_single_lens(t, value, floats, rows_up_to(1, doc, floats));
    lemma_single_body(t, value, floats, rows_up_to(2, doc, floats));
    lemma_single_image(t, value, floats, rows_up_to(3, doc, floats));
    lemma_single_time(t, value, floats, rows_up_to(4, doc, floats));
    lemma_single_place(t, value, floats, rows_up_to(5, doc, floats));
    lemma_single_note(t, value, floats, rows_up_to(6, doc, floats));
}

proof fn lemma_shown_time(f: Field, value: ValueModel, floats: FloatModel)
    requires
        f is DateTimeOriginal || f is DateTimeDigitized || f is DateTime || f is OffsetTimeOriginal || f is OffsetTime || f is SubSecTimeOriginal,
    ensures
        shows(rows_up_to(7, only(f.tag(), value), floats), f, value, floats),
{
    let t = f.tag();
    let doc = only(t, value);
    reveal_with_fuel(rows_up_to, 8);
    lemma_single_exposure(t, value, floats, rows_up_to(0, doc, floats));
    lemma_single_lens(t, value, floats, rows_up_to(1, doc, floats));
    lemma_single_body(t, value, floats, rows_up_to(2, doc, floats));
    lemma_single_image(t, value, floats, rows_up_to(3, doc, floats));
    lemma_single_time(t, value, floats, rows_up_to(4, doc, floats));
    lemma_single_place(t, value, floats, rows_up_to(5, doc, floats));
    lemma_single_note(t, value, floats, rows_up_to(6, doc, floats));
}

proof fn lemma_shown_place(f: Field, value: ValueModel, floats: FloatModel)
    requires
        f is GPSAltitude,
    ensures
        shows(rows_up_to(7, only(f.tag(), value), floats), f, value, floats),
{
    let t = f.tag();
    let doc = only(t, value);
    reveal_with_fuel(rows_up_to, 8);
    lemma_single_exposure(t, value, floats, rows_up_to(0, doc, floats));
    lemma_single_lens(t, value, floats, rows_up_to(1, doc, floats));
    lemma_single_body(t, value, floats, rows_up_to(2, doc, floats));
    lemma_single_image(t, value, floats, rows_up_to(3, doc, floats));
    lemma_single_time(t, value, floats, rows_up_to(4, doc, floats));
    lemma_single_place(t, value, floats, rows_up_to(5, doc, floats));
    lemma_single_note(t, value, floats, rows_up_to(6, doc, floats));
}

proof fn lemma_shown_note(f: Field, value: ValueModel, floats: FloatModel)
    requires
        f is ImageDescription || f is Artist || f is Copyright || f is UserComment,
    ensures
        shows(rows_up_to(7, only(f.tag(), value), floats), f, value, floats),
{
    let t = f.tag();
    let doc = only(t, value);
    reveal_with_fuel(rows_up_to, 8);
    lemma_single_exposure(t, value, floats, rows_up_to(0, doc, floats));
    lemma_single_lens(t, value, floats, rows_up_to(1, doc, floats));
    lemma_single_body(t, value, floats, rows_up_to(2, doc, floats));
    lemma_single_image(t, value, floats, rows_up_to(3, doc, floats));
    lemma_single_time(t, value, floats, rows_up_to(4, doc, floats));
    lemma_single_place(t, value, floats, rows_up_to(5, doc, floats));
    lemma_single_note(t, value, floats, rows_up_to(6, doc, floats));
}

proof fn lemma_shown_nowhere(f: Field, value: ValueModel, floats: FloatModel)
    requires
        f is FNumber || f is ExposureTime || f is PhotographicSensitivity || f is ISOSpeed,
    ensures
        shows(rows_up_to(7, only(f.tag(), value), floats), f, value, floats),
{
    let t = f.tag();
    let doc = only(t, value);
    reveal_with_fuel(rows_up_to, 8);
    lemma_single_exposure(t, value, floats, rows_up_to(0, doc, floats));
    lemma_single_lens(t, value, floats, rows_up_to(1, doc, floats));
    lemma_single_body(t, value, floats, rows_up_to(2, doc, floats));
    lemma_single_image(t, value, floats, rows_up_to(3, doc, floats));
    lemma_single_time(t, value, floats, rows_up_to(4, doc, floats));
    lemma_single_place(t, value, floats, rows_up_to(5, doc, floats));
    lemma_single_note(t, value, floats, rows_up_to(6, doc, floats));
}

/// A file with a single field has at most one row in the panel: that of the field. A
/// text is shown as it is, and a number by the name that the table for the field has for
/// it.
pub proof fn law_single_fields_are_shown(f: Field, value: ValueModel, floats: FloatModel)
    ensures
        shows(detail_rows(only(f.tag(), value), floats), f, value, floats),
{
    lemma_all_sections(only(f.tag(), value), floats);
    match f {
        Field::ExposureProgram | Field::ExposureMode | Field::ExposureBiasValue | Field::MeteringMode | Field::Flash | Field::BrightnessValue | Field::RecommendedExposureIndex => {
            lemma_shown_exposure(f, value, floats);
        },
        Field::LensMake | Field::LensModel | Field::LensSerialNumber | Field::FocalLength | Field::FocalLengthIn35mmFilm | Field::MaxApertureValue | Field::SubjectDistance | Field::DigitalZoomRatio => {
            lemma_shown_lens(f, value, floats);
        },
        Field::Make | Field::Model | Field::BodySerialNumber | Field::Software | Field::SensingMethod => {
            lemma_shown_body(f, value, floats);
        },
        Field::Orientation | Field::ColorSpace | Field::WhiteBalance | Field::LightSource | Field::SceneCaptureType | Field::Contrast | Field::Saturation | Field::Sharpness | Field::GainControl | Field::CustomRendered | Field::SubjectDistanceRange | Field::PixelXDimension | Field::PixelYDimension | Field::Compression | Field::PhotometricInterpretation | Field::BitsPerSample | Field::XResolution => {
            lemma_shown_image(f, value, floats);
        },
        Field::DateTimeOriginal | Field::DateTimeDigitized | Field::DateTime | Field::OffsetTimeOriginal | Field::OffsetTime | Field::SubSecTimeOriginal => {
            lemma_shown_time(f, value, floats);
        },
        Field::GPSAltitude => {
            lemma_shown_place(f, value, floats);
        },
        Field::ImageDescription | Field::Artist | Field::Copyright | Field::UserComment => {
            lemma_shown_note(f, value, floats);
        },
        Field::FNumber | Field::ExposureTime | Field::PhotographicSensitivity | Field::ISOSpeed => {
            lemma_shown_nowhere(f, value, floats);
        },
    }
}

/// Whatever is recorded as the camera, its serial number, the lens or the focal length
/// is what the panel shows in the row with that name.
pub proof fn law_panel_shows_what_is_recorded(doc: DocModel, floats: FloatModel)
    ensures
        ({
            let rows = detail_rows(doc, floats);
            let r = lite_in(doc);
            &&& r.camera_model matches Some(s) ==> rows.contains(
                ItemModel { group: "机身"@, label: "型号"@, value: s },
            )
            &&& r.camera_serial matches Some(s) ==> rows.contains(
                ItemModel { group: "机身"@, label: "机身序列号"@, value: s },
            )
            &&& r.lens matches Some(s) ==> rows.contains(
                ItemModel { group: "镜头"@, label: "镜头型号"@, value: s },
            )
        }),
{
    lemma_rows_stay();
    let a = exposure_rows(doc, Seq::empty());
    let b = lens_rows(doc, floats, a);
    let c = body_rows(doc, b);
    if let Some(s) = lite_in(doc).lens {
        let v = doc.get(Field::LensModel.tag())->Some_0;
        lemma_trimmed_twice(latin(until_nul(v->Ascii_0[0])));
        let before = added(a, "镜头"@, "镜头品牌"@, doc.ascii(Field::LensMake.tag()));
        let item = ItemModel { group: "镜头"@, label: "镜头型号"@, value: s };
        let with = added(before, "镜头"@, "镜头型号"@, Some(s));
        assert(with == before.push(item));
        assert(with[before.len() as int] == item);
        assert(with.contains(item));
        assert(b.contains(item));
    }
    if let Some(s) = lite_in(doc).camera_model {
        let v = doc.get(Field::Model.tag())->Some_0;
        lemma_trimmed_twice(latin(until_nul(v->Ascii_0[0])));
        let before = added(b, "机身"@, "品牌"@, doc.ascii(Field::Make.tag()));
        let item = ItemModel { group: "机身"@, label: "型号"@, value: s };
        let with = added(before, "机身"@, "型号"@, Some(s));
        assert(with == before.push(item));
        assert(with[before.len() as int] == item);
        assert(with.contains(item));
        assert(c.contains(item));
    }
    if let Some(s) = lite_in(doc).camera_serial {
        let v = doc.get(Field::BodySerialNumber.tag())->Some_0;
        lemma_trimmed_twice(latin(until_nul(v->Ascii_0[0])));
        let make = added(b, "机身"@, "品牌"@, doc.ascii(Field::Make.tag()));
        let before = added(make, "机身"@, "型号"@, doc.ascii(Field::Model.tag()));
        let item = ItemModel { group: "机身"@, label: "机身序列号"@, value: s };
        let with = added(before, "机身"@, "机身序列号"@, Some(s));
        assert(with == before.push(item));
        assert(with[before.len() as int] == item);
        assert(with.contains(item));
        assert(c.contains(item));
    }
}

/// A position is latitude and longitude, each from its own field and on the side that the
/// field beside it names: south and west are told by their letters.
pub proof fn law_positions_come_from_their_fields(doc: DocModel)
    ensures
        ({
            let latitude = dms_in(doc, gps(2));
            let longitude = dms_in(doc, gps(4));
            let vertical = doc.ascii(gps(1));
            let horizontal = doc.ascii(gps(3));
            match position_in(doc) {
                Some(p) => {
                    &&& latitude == Some(p.latitude)
                    &&& longitude == Some(p.longitude)
                    &&& vertical matches Some(s) && p.south == (s == seq!['S'] || s == seq!['s'])
                    &&& horizontal matches Some(s) && p.west == (s == seq!['W'] || s == seq!['w'])
                },
                None => latitude is None || longitude is None || vertical is None || horizontal
                    is None,
            }
        }),
{
}

/// The time zone is that of the shot where the file has it; the size of the picture is
/// width before height; and an altitude below the sea has a minus sign.
pub proof fn law_fields_go_together(doc: DocModel)
    ensures
        doc.ascii(Field::OffsetTimeOriginal.tag()) is Some ==> zone_text(doc) == doc.ascii(
            Field::OffsetTimeOriginal.tag(),
        ),
        doc.ascii(Field::OffsetTimeOriginal.tag()) is None ==> zone_text(doc) == doc.ascii(
            Field::OffsetTime.tag(),
        ),
        doc.uint(Field::PixelXDimension.tag()) matches Some(w) ==> (doc.uint(
            Field::PixelYDimension.tag(),
        ) matches Some(h) ==> pixel_size_text(doc) == Some(
            dec(w as nat) + " × "@ + dec(h as nat),
        )),
        doc.ratio(Field::GPSAltitude.tag()) matches Some(q) ==> altitude_text(doc) == Some(
            (if doc.uint(gps(5)) == Some(1u32) {
                "-"@
            } else {
                Seq::empty()
            }) + q.fixed(1) + " m"@,
        ),
{
    if let Some(q) = doc.ratio(Field::GPSAltitude.tag()) {
        assert(Seq::<char>::empty() + q.fixed(1) =~= q.fixed(1));
    }
}

proof fn lemma_rows_stay()
    ensures
        forall|
            out: Seq<ItemModel>,
            section: Seq<char>,
            label: Seq<char>,
            v: Option<Seq<char>>,
            item: ItemModel,
        |
            out.contains(item) ==> #[trigger] added(out, section, label, v).contains(item),
{
    assert forall|
        out: Seq<ItemModel>,
        section: Seq<char>,
        label: Seq<char>,
        v: Option<Seq<char>>,
        item: ItemModel,
    | out.contains(item) implies #[trigger] added(out, section, label, v).contains(item) by {
        let i = choose|i: int| 0 <= i < out.len() && out[i] == item;
        assert(added(out, section, label, v)[i] == item);
    }
}

proof fn lemma_trim_front_ends(s: Seq<char>)
    ensures
        trim_front(s).len() > 0 ==> !is_space(trim_front(s)[0]) && trim_front(s).last() == s.last(),
        trim_front(s).len() <= s.len(),
    decreases s.len(),
{
    if s.len() > 0 && is_space(s[0]) {
        lemma_trim_front_ends(s.skip(1));
    }
}

proof fn lemma_trim_back_ends(s: Seq<char>)
    ensures
        trim_back(s).len() > 0 ==> !is_space(trim_back(s).last()) && trim_back(s)[0] == s[0],
        trim_back(s).len() <= s.len(),
    decreases s.len(),
{
    if s.len() > 0 && is_space(s.last()) {
        lemma_trim_back_ends(s.drop_last());
    }
}

/// White space around a text is dropped once.
proof fn lemma_trimmed_twice(s: Seq<char>)
    ensures
        trimmed(trimmed(s)) == trimmed(s),
{
    let f = trim_front(s);
    let t = trim_back(f);
    lemma_trim_front_ends(s);
    lemma_trim_back_ends(f);
    assert(trim_front(t) == t);
    assert(trim_back(t) == t);
}

} // verus!
