//! The detail panel: everything worth showing of a file's EXIF data, in sections.
//!
//! This is read on demand for one file at a time and never stored.
use vstd::prelude::*;

use crate::exif_doc::{
    container_fields,
    latin,
    non_empty,
    read_doc,
    trim_to_some,
    DocModel,
    ExifDoc,
    ExifValue,
    Ratio,
    Tag,
    TagGroup,
    ValueModel,
};
use crate::text::{
    cat,
    cat3,
    chars_of,
    dec,
    decimal,
    has_char,
    join,
    joined,
    opt_view,
    same,
    text_of,
    trim,
    trimmed,
    views,
};

verus! {

/// One row of the detail panel.
#[derive(Debug, Clone)]
pub struct ExifItem {
    /// The section that the row belongs to.
    pub group: String,
    pub label: String,
    pub value: String,
}

/// What an `ExifItem` holds.
pub struct ItemModel {
    pub group: Seq<char>,
    pub label: Seq<char>,
    pub value: Seq<char>,
}

impl View for ExifItem {
    type V = ItemModel;

    open spec fn view(&self) -> ItemModel {
        ItemModel { group: self.group@, label: self.label@, value: self.value@ }
    }
}

pub open spec fn items_view(items: Seq<ExifItem>) -> Seq<ItemModel> {
    items.map_values(|i: ExifItem| i@)
}

/// `out` with one more row, where there is a value with anything but white space
/// in it.
pub open spec fn added(
    out: Seq<ItemModel>,
    group: Seq<char>,
    label: Seq<char>,
    value: Option<Seq<char>>,
) -> Seq<ItemModel> {
    match value {
        Some(v) if trimmed(v).len() > 0 => out.push(
            ItemModel { group, label, value: trimmed(v) },
        ),
        _ => out,
    }
}

fn push(out: &mut Vec<ExifItem>, group: &str, label: &str, value: Option<String>)
    ensures
        items_view(final(out)@) == added(items_view(old(out)@), group@, label@, opt_view(value)),
{
    if let Some(v) = value {
        let v = trim(v.as_str());
        let n: usize = chars_of(v.as_str()).len();
        if n > 0 {
            let item = ExifItem { group: group.to_string(), label: label.to_string(), value: v };
            out.push(item);
            assert(items_view(out@) =~= items_view(old(out)@).push(item@));
        }
    }
}

/// The two texts that take floating-point arithmetic to work out: the largest
/// aperture as an f-number, and the position in degrees.
#[derive(Debug, Clone)]
pub struct FloatTexts {
    pub max_aperture: Option<String>,
    pub position: Option<String>,
}

/// What a `FloatTexts` holds.
pub struct FloatModel {
    pub max_aperture: Option<Seq<char>>,
    pub position: Option<Seq<char>>,
}

impl View for FloatTexts {
    type V = FloatModel;

    open spec fn view(&self) -> FloatModel {
        FloatModel {
            max_aperture: opt_view(self.max_aperture),
            position: opt_view(self.position),
        }
    }
}

// ---------------------------------------------------------------------------
// Tags
// ---------------------------------------------------------------------------

pub open spec fn tiff_tag(number: u16) -> Tag {
    Tag { group: TagGroup::Tiff, number }
}

pub open spec fn exif_tag(number: u16) -> Tag {
    Tag { group: TagGroup::Exif, number }
}

pub open spec fn gps_tag(number: u16) -> Tag {
    Tag { group: TagGroup::Gps, number }
}

pub fn tiff_field(number: u16) -> (r: Tag)
    ensures
        r == tiff_tag(number),
{
    Tag { group: TagGroup::Tiff, number }
}

pub fn exif_field(number: u16) -> (r: Tag)
    ensures
        r == exif_tag(number),
{
    Tag { group: TagGroup::Exif, number }
}

pub fn gps_field(number: u16) -> (r: Tag)
    ensures
        r == gps_tag(number),
{
    Tag { group: TagGroup::Gps, number }
}

// ---------------------------------------------------------------------------
// Tables of names
// ---------------------------------------------------------------------------

/// What a name from a table says.
pub open spec fn shown(s: Option<&'static str>) -> Option<Seq<char>> {
    match s {
        Some(t) => Some(t@),
        None => None,
    }
}

/// The tables of names for numbered settings.
#[derive(Debug, Clone, Copy, PartialEq, Eq, Structural)]
pub enum Table {
    ExposureProgram,
    ExposureMode,
    MeteringMode,
    Orientation,
    ColorSpace,
    WhiteBalance,
    LightSource,
    SceneCapture,
    Tone,
    GainControl,
    CustomRendered,
    SubjectDistanceRange,
    SensingMethod,
    Compression,
    Photometric,
    ResolutionUnit,
}

pub open spec fn exposure_program_name(v: u32) -> Option<Seq<char>> {
    match v {
        0 => Some("未定义"@),
        1 => Some("手动"@),
        2 => Some("程序自动"@),
        3 => Some("光圈优先"@),
        4 => Some("快门优先"@),
        5 => Some("创意（低速优先）"@),
        6 => Some("运动（高速优先）"@),
        7 => Some("人像"@),
        8 => Some("风景"@),
        9 => Some("微距"@),
        _ => None,
    }
}

pub open spec fn exposure_mode_name(v: u32) -> Option<Seq<char>> {
    match v {
        0 => Some("自动曝光"@),
        1 => Some("手动曝光"@),
        2 => Some("自动包围曝光"@),
        _ => None,
    }
}

pub open spec fn metering_mode_name(v: u32) -> Option<Seq<char>> {
    match v {
        0 => Some("未知"@),
        1 => Some("平均测光"@),
        2 => Some("中央重点平均"@),
        3 => Some("点测光"@),
        4 => Some("多点测光"@),
        5 => Some("评价测光（矩阵）"@),
        6 => Some("局部测光"@),
        255 => Some("其他"@),
        _ => None,
    }
}

pub open spec fn orientation_name(v: u32) -> Option<Seq<char>> {
    match v {
        1 => Some("正常"@),
        2 => Some("水平翻转"@),
        3 => Some("旋转 180°"@),
        4 => Some("垂直翻转"@),
        5 => Some("顺时针 90° + 水平翻转"@),
        6 => Some("顺时针 90°"@),
        7 => Some("逆时针 90° + 水平翻转"@),
        8 => Some("逆时针 90°"@),
        _ => None,
    }
}

pub open spec fn color_space_name(v: u32) -> Option<Seq<char>> {
    match v {
        1 => Some("sRGB"@),
        2 => Some("Adobe RGB"@),
        65535 => Some("未校准"@),
        _ => None,
    }
}

pub open spec fn white_balance_name(v: u32) -> Option<Seq<char>> {
    match v {
        0 => Some("自动"@),
        1 => Some("手动"@),
        _ => None,
    }
}

pub open spec fn light_source_name(v: u32) -> Option<Seq<char>> {
    match v {
        0 => Some("未知"@),
        1 => Some("日光"@),
        2 => Some("荧光灯"@),
        3 => Some("白炽灯（钨丝）"@),
        4 => Some("闪光灯"@),
        9 => Some("晴天"@),
        10 => Some("阴天"@),
        11 => Some("阴影"@),
        15 => Some("白荧光灯"@),
        17 => Some("标准光源 A"@),
        18 => Some("标准光源 B"@),
        19 => Some("标准光源 C"@),
        20 => Some("D55"@),
        21 => Some("D65"@),
        22 => Some("D75"@),
        255 => Some("其他"@),
        _ => None,
    }
}

pub open spec fn scene_capture_name(v: u32) -> Option<Seq<char>> {
    match v {
        0 => Some("标准"@),
        1 => Some("人像"@),
        2 => Some("风景"@),
        3 => Some("夜景"@),
        _ => None,
    }
}

pub open spec fn tone_name(v: u32) -> Option<Seq<char>> {
    match v {
        0 => Some("标准"@),
        1 => Some("低"@),
        2 => Some("高"@),
        _ => None,
    }
}

pub open spec fn gain_control_name(v: u32) -> Option<Seq<char>> {
    match v {
        0 => Some("无"@),
        1 => Some("低增益提升"@),
        2 => Some("高增益提升"@),
        3 => Some("低增益降低"@),
        4 => Some("高增益降低"@),
        _ => None,
    }
}

pub open spec fn custom_rendered_name(v: u32) -> Option<Seq<char>> {
    match v {
        0 => Some("普通流程"@),
        1 => Some("自定义处理"@),
        _ => None,
    }
}

pub open spec fn subject_distance_range_name(v: u32) -> Option<Seq<char>> {
    match v {
        0 => Some("未知"@),
        1 => Some("微距"@),
        2 => Some("近景"@),
        3 => Some("远景"@),
        _ => None,
    }
}

pub open spec fn sensing_method_name(v: u32) -> Option<Seq<char>> {
    match v {
        1 => Some("单色区传感器"@),
        2 => Some("单芯片彩色"@),
        3 => Some("双芯片彩色"@),
        4 => Some("三芯片彩色"@),
        5 => Some("色彩顺序"@),
        7 => Some("三线性"@),
        8 => Some("色彩线性"@),
        _ => None,
    }
}

pub open spec fn compression_name(v: u32) -> Option<Seq<char>> {
    match v {
        1 => Some("未压缩"@),
        6 => Some("JPEG（旧式）"@),
        7 => Some("JPEG"@),
        8 => Some("Deflate"@),
        32773 => Some("PackBits"@),
        34712 => Some("JPEG 2000"@),
        34713 => Some("尼康 NEF 压缩"@),
        34892 => Some("Lossy JPEG"@),
        _ => None,
    }
}

pub open spec fn photometric_name(v: u32) -> Option<Seq<char>> {
    match v {
        0 => Some("WhiteIsZero"@),
        1 => Some("BlackIsZero"@),
        2 => Some("RGB"@),
        3 => Some("调色板"@),
        5 => Some("CMYK"@),
        6 => Some("YCbCr"@),
        8 => Some("CIELAB"@),
        32803 => Some("彩色滤镜阵列（RAW）"@),
        34892 => Some("Linear RAW"@),
        _ => None,
    }
}

pub open spec fn resolution_unit_name(v: u32) -> Option<Seq<char>> {
    match v {
        1 => Some("像素/无单位"@),
        2 => Some("像素/英寸"@),
        3 => Some("像素/厘米"@),
        _ => None,
    }
}

/// The name that a table has for a number.
pub open spec fn name_in(t: Table, v: u32) -> Option<Seq<char>> {
    match t {
        Table::ExposureProgram => exposure_program_name(v),
        Table::ExposureMode => exposure_mode_name(v),
        Table::MeteringMode => metering_mode_name(v),
        Table::Orientation => orientation_name(v),
        Table::ColorSpace => color_space_name(v),
        Table::WhiteBalance => white_balance_name(v),
        Table::LightSource => light_source_name(v),
        Table::SceneCapture => scene_capture_name(v),
        Table::Tone => tone_name(v),
        Table::GainControl => gain_control_name(v),
        Table::CustomRendered => custom_rendered_name(v),
        Table::SubjectDistanceRange => subject_distance_range_name(v),
        Table::SensingMethod => sensing_method_name(v),
        Table::Compression => compression_name(v),
        Table::Photometric => photometric_name(v),
        Table::ResolutionUnit => resolution_unit_name(v),
    }
}

fn name_exposure_program(v: u32) -> (r: Option<&'static str>)
    ensures
        shown(r) == exposure_program_name(v),
{
    match v {
        0 => Some("未定义"),
        1 => Some("手动"),
        2 => Some("程序自动"),
        3 => Some("光圈优先"),
        4 => Some("快门优先"),
        5 => Some("创意（低速优先）"),
        6 => Some("运动（高速优先）"),
        7 => Some("人像"),
        8 => Some("风景"),
        9 => Some("微距"),
        _ => None,
    }
}

fn name_exposure_mode(v: u32) -> (r: Option<&'static str>)
    ensures
        shown(r) == exposure_mode_name(v),
{
    match v {
        0 => Some("自动曝光"),
        1 => Some("手动曝光"),
        2 => Some("自动包围曝光"),
        _ => None,
    }
}

fn name_metering_mode(v: u32) -> (r: Option<&'static str>)
    ensures
        shown(r) == metering_mode_name(v),
{
    match v {
        0 => Some("未知"),
        1 => Some("平均测光"),
        2 => Some("中央重点平均"),
        3 => Some("点测光"),
        4 => Some("多点测光"),
        5 => Some("评价测光（矩阵）"),
        6 => Some("局部测光"),
        255 => Some("其他"),
        _ => None,
    }
}

fn name_orientation(v: u32) -> (r: Option<&'static str>)
    ensures
        shown(r) == orientation_name(v),
{
    match v {
        1 => Some("正常"),
        2 => Some("水平翻转"),
        3 => Some("旋转 180°"),
        4 => Some("垂直翻转"),
        5 => Some("顺时针 90° + 水平翻转"),
        6 => Some("顺时针 90°"),
        7 => Some("逆时针 90° + 水平翻转"),
        8 => Some("逆时针 90°"),
        _ => None,
    }
}

fn name_color_space(v: u32) -> (r: Option<&'static str>)
    ensures
        shown(r) == color_space_name(v),
{
    match v {
        1 => Some("sRGB"),
        2 => Some("Adobe RGB"),
        65535 => Some("未校准"),
        _ => None,
    }
}

fn name_white_balance(v: u32) -> (r: Option<&'static str>)
    ensures
        shown(r) == white_balance_name(v),
{
    match v {
        0 => Some("自动"),
        1 => Some("手动"),
        _ => None,
    }
}

fn name_light_source(v: u32) -> (r: Option<&'static str>)
    ensures
        shown(r) == light_source_name(v),
{
    match v {
        0 => Some("未知"),
        1 => Some("日光"),
        2 => Some("荧光灯"),
        3 => Some("白炽灯（钨丝）"),
        4 => Some("闪光灯"),
        9 => Some("晴天"),
        10 => Some("阴天"),
        11 => Some("阴影"),
        15 => Some("白荧光灯"),
        17 => Some("标准光源 A"),
        18 => Some("标准光源 B"),
        19 => Some("标准光源 C"),
        20 => Some("D55"),
        21 => Some("D65"),
        22 => Some("D75"),
        255 => Some("其他"),
        _ => None,
    }
}

fn name_scene_capture(v: u32) -> (r: Option<&'static str>)
    ensures
        shown(r) == scene_capture_name(v),
{
    match v {
        0 => Some("标准"),
        1 => Some("人像"),
        2 => Some("风景"),
        3 => Some("夜景"),
        _ => None,
    }
}

fn name_tone(v: u32) -> (r: Option<&'static str>)
    ensures
        shown(r) == tone_name(v),
{
    match v {
        0 => Some("标准"),
        1 => Some("低"),
        2 => Some("高"),
        _ => None,
    }
}

fn name_gain_control(v: u32) -> (r: Option<&'static str>)
    ensures
        shown(r) == gain_control_name(v),
{
    match v {
        0 => Some("无"),
        1 => Some("低增益提升"),
        2 => Some("高增益提升"),
        3 => Some("低增益降低"),
        4 => Some("高增益降低"),
        _ => None,
    }
}

fn name_custom_rendered(v: u32) -> (r: Option<&'static str>)
    ensures
        shown(r) == custom_rendered_name(v),
{
    match v {
        0 => Some("普通流程"),
        1 => Some("自定义处理"),
        _ => None,
    }
}

fn name_subject_distance_range(v: u32) -> (r: Option<&'static str>)
    ensures
        shown(r) == subject_distance_range_name(v),
{
    match v {
        0 => Some("未知"),
        1 => Some("微距"),
        2 => Some("近景"),
        3 => Some("远景"),
        _ => None,
    }
}

fn name_sensing_method(v: u32) -> (r: Option<&'static str>)
    ensures
        shown(r) == sensing_method_name(v),
{
    match v {
        1 => Some("单色区传感器"),
        2 => Some("单芯片彩色"),
        3 => Some("双芯片彩色"),
        4 => Some("三芯片彩色"),
        5 => Some("色彩顺序"),
        7 => Some("三线性"),
        8 => Some("色彩线性"),
        _ => None,
    }
}

fn name_compression(v: u32) -> (r: Option<&'static str>)
    ensures
        shown(r) == compression_name(v),
{
    match v {
        1 => Some("未压缩"),
        6 => Some("JPEG（旧式）"),
        7 => Some("JPEG"),
        8 => Some("Deflate"),
        32773 => Some("PackBits"),
        34712 => Some("JPEG 2000"),
        34713 => Some("尼康 NEF 压缩"),
        34892 => Some("Lossy JPEG"),
        _ => None,
    }
}

fn name_photometric(v: u32) -> (r: Option<&'static str>)
    ensures
        shown(r) == photometric_name(v),
{
    match v {
        0 => Some("WhiteIsZero"),
        1 => Some("BlackIsZero"),
        2 => Some("RGB"),
        3 => Some("调色板"),
        5 => Some("CMYK"),
        6 => Some("YCbCr"),
        8 => Some("CIELAB"),
        32803 => Some("彩色滤镜阵列（RAW）"),
        34892 => Some("Linear RAW"),
        _ => None,
    }
}

fn name_resolution_unit(v: u32) -> (r: Option<&'static str>)
    ensures
        shown(r) == resolution_unit_name(v),
{
    match v {
        1 => Some("像素/无单位"),
        2 => Some("像素/英寸"),
        3 => Some("像素/厘米"),
        _ => None,
    }
}

fn name_from(t: Table, v: u32) -> (r: Option<&'static str>)
    ensures
        shown(r) == name_in(t, v),
{
    match t {
        Table::ExposureProgram => name_exposure_program(v),
        Table::ExposureMode => name_exposure_mode(v),
        Table::MeteringMode => name_metering_mode(v),
        Table::Orientation => name_orientation(v),
        Table::ColorSpace => name_color_space(v),
        Table::WhiteBalance => name_white_balance(v),
        Table::LightSource => name_light_source(v),
        Table::SceneCapture => name_scene_capture(v),
        Table::Tone => name_tone(v),
        Table::GainControl => name_gain_control(v),
        Table::CustomRendered => name_custom_rendered(v),
        Table::SubjectDistanceRange => name_subject_distance_range(v),
        Table::SensingMethod => name_sensing_method(v),
        Table::Compression => name_compression(v),
        Table::Photometric => name_photometric(v),
        Table::ResolutionUnit => name_resolution_unit(v),
    }
}

/// The name of a numbered setting; a number that the table does not know is shown
/// as it is.
pub open spec fn lookup_text(t: Table, v: u32) -> Seq<char> {
    match name_in(t, v) {
        Some(s) => s,
        None => dec(v as nat),
    }
}

pub fn lookup(t: Table, v: u32) -> (r: String)
    ensures
        r@ == lookup_text(t, v),
{
    match name_from(t, v) {
        Some(s) => s.to_string(),
        None => decimal(v as u64),
    }
}

/// The name for the setting that a field holds.
pub open spec fn enum_text(doc: DocModel, t: Tag, table: Table) -> Option<Seq<char>> {
    match doc.uint(t) {
        Some(v) => Some(lookup_text(table, v)),
        None => None,
    }
}

fn enum_of(doc: &ExifDoc, t: Tag, table: Table) -> (r: Option<String>)
    ensures
        opt_view(r) == enum_text(doc@, t, table),
{
    match doc.uint(t) {
        Some(v) => Some(lookup(table, v)),
        None => None,
    }
}

fn clone_text(o: &Option<String>) -> (r: Option<String>)
    ensures
        opt_view(r) == opt_view(*o),
{
    match o {
        Some(s) => Some(s.clone()),
        None => None,
    }
}

// ---------------------------------------------------------------------------
// Numbers
// ---------------------------------------------------------------------------

/// `s` without the characters `c` that it ends with.
pub open spec fn strip_end(s: Seq<char>, c: char) -> Seq<char>
    decreases s.len(),
{
    if s.len() > 0 && s.last() == c {
        strip_end(s.drop_last(), c)
    } else {
        s
    }
}

/// A decimal fraction without the zeros at its end, and without the point where
/// nothing is left behind it.
pub open spec fn trim_zeros(s: Seq<char>) -> Seq<char> {
    if s.contains('.') {
        strip_end(strip_end(s, '0'), '.')
    } else {
        s
    }
}

fn strip_end_of(v: &Vec<char>, to: usize, c: char) -> (r: usize)
    requires
        to <= v@.len(),
    ensures
        r <= to,
        v@.take(r as int) == strip_end(v@.take(to as int), c),
{
    let mut e: usize = to;
    while e > 0 && v[e - 1] == c
        invariant
            e <= to <= v@.len(),
            strip_end(v@.take(to as int), c) == strip_end(v@.take(e as int), c),
        decreases e,
    {
        proof {
            assert(v@.take(e as int).drop_last() =~= v@.take(e - 1));
        }
        e = e - 1;
    }
    e
}

/// The quotient with at most `max_digits` decimals: 35.0 is shown as 35, 1.50 as
/// 1.5.
pub fn trim_num(q: Ratio, max_digits: usize) -> (r: String)
    requires
        max_digits <= 16,
    ensures
        r@ == trim_zeros(q.fixed(max_digits as nat)),
{
    let s = q.to_fixed(max_digits);
    trim_fraction(s)
}

/// Drops the zeros at the end of a decimal fraction.
pub fn trim_fraction(s: String) -> (r: String)
    ensures
        r@ == trim_zeros(s@),
{
    if !has_char(s.as_str(), '.') {
        return s;
    }
    let v = chars_of(s.as_str());
    proof {
        assert(v@.take(v@.len() as int) =~= v@);
    }
    let a: usize = strip_end_of(&v, v.len(), '0');
    let b: usize = strip_end_of(&v, a, '.');
    assert(v@.subrange(0, b as int) =~= v@.take(b as int));
    text_of(&v, 0, b)
}

/// The exposure compensation, with its sign.
pub open spec fn bias_text(doc: DocModel) -> Option<Seq<char>> {
    match doc.ratio(exif_tag(0x9204)) {
        Some(q) => Some(
            if q.near_zero() {
                "0 EV"@
            } else if q.positive() {
                "+"@ + q.fixed(2) + " EV"@
            } else {
                q.fixed(2) + " EV"@
            },
        ),
        None => None,
    }
}

fn bias(doc: &ExifDoc) -> (r: Option<String>)
    ensures
        opt_view(r) == bias_text(doc@),
{
    match doc.ratio(exif_field(0x9204)) {
        Some(q) => Some(
            if q.is_near_zero() {
                "0 EV".to_string()
            } else if q.is_positive() {
                cat3("+", q.to_fixed(2).as_str(), " EV")
            } else {
                cat(q.to_fixed(2).as_str(), " EV")
            },
        ),
        None => None,
    }
}

pub open spec fn brightness_text(doc: DocModel) -> Option<Seq<char>> {
    match doc.ratio(exif_tag(0x9203)) {
        Some(q) => Some(q.fixed(2)),
        None => None,
    }
}

fn brightness(doc: &ExifDoc) -> (r: Option<String>)
    ensures
        opt_view(r) == brightness_text(doc@),
{
    match doc.ratio(exif_field(0x9203)) {
        Some(q) => Some(q.to_fixed(2)),
        None => None,
    }
}

pub open spec fn exposure_index_text(doc: DocModel) -> Option<Seq<char>> {
    match doc.uint(exif_tag(0x8832)) {
        Some(v) => Some(dec(v as nat)),
        None => None,
    }
}

fn exposure_index(doc: &ExifDoc) -> (r: Option<String>)
    ensures
        opt_view(r) == exposure_index_text(doc@),
{
    match doc.uint(exif_field(0x8832)) {
        Some(v) => Some(decimal(v as u64)),
        None => None,
    }
}

pub open spec fn focal_length_text(doc: DocModel) -> Option<Seq<char>> {
    match doc.ratio(exif_tag(0x920a)) {
        Some(q) => Some(trim_zeros(q.fixed(1)) + " mm"@),
        None => None,
    }
}

fn focal_length(doc: &ExifDoc) -> (r: Option<String>)
    ensures
        opt_view(r) == focal_length_text(doc@),
{
    match doc.ratio(exif_field(0x920a)) {
        Some(q) => Some(cat(trim_num(q, 1).as_str(), " mm")),
        None => None,
    }
}

pub open spec fn focal_length_35_text(doc: DocModel) -> Option<Seq<char>> {
    match doc.uint(exif_tag(0xa405)) {
        Some(v) if v > 0 => Some(dec(v as nat) + " mm"@),
        _ => None,
    }
}

fn focal_length_35(doc: &ExifDoc) -> (r: Option<String>)
    ensures
        opt_view(r) == focal_length_35_text(doc@),
{
    match doc.uint(exif_field(0xa405)) {
        Some(v) if v > 0 => Some(cat(decimal(v as u64).as_str(), " mm")),
        _ => None,
    }
}

/// The largest aperture is shown where the file gives it.
pub open spec fn max_aperture_text(doc: DocModel, floats: FloatModel) -> Option<Seq<char>> {
    match doc.ratio(exif_tag(0x9205)) {
        Some(_) => floats.max_aperture,
        None => None,
    }
}

fn max_aperture(doc: &ExifDoc, floats: &FloatTexts) -> (r: Option<String>)
    ensures
        opt_view(r) == max_aperture_text(doc@, floats@),
{
    match doc.ratio(exif_field(0x9205)) {
        Some(_) => clone_text(&floats.max_aperture),
        None => None,
    }
}

/// The largest aperture as the file gives it, on the APEX scale.
pub fn max_aperture_value(doc: &ExifDoc) -> (r: Option<Ratio>)
    ensures
        r == doc@.ratio(exif_tag(0x9205)),
{
    doc.ratio(exif_field(0x9205))
}

pub open spec fn subject_distance_text(doc: DocModel) -> Option<Seq<char>> {
    match doc.ratio(exif_tag(0x9206)) {
        Some(q) if q.positive() => Some(q.fixed(2) + " m"@),
        _ => None,
    }
}

fn subject_distance(doc: &ExifDoc) -> (r: Option<String>)
    ensures
        opt_view(r) == subject_distance_text(doc@),
{
    match doc.ratio(exif_field(0x9206)) {
        Some(q) if q.is_positive() => Some(cat(q.to_fixed(2).as_str(), " m")),
        _ => None,
    }
}

pub open spec fn digital_zoom_text(doc: DocModel) -> Option<Seq<char>> {
    match doc.ratio(exif_tag(0xa404)) {
        Some(q) if q.positive() => Some(q.fixed(2) + "×"@),
        _ => None,
    }
}

fn digital_zoom(doc: &ExifDoc) -> (r: Option<String>)
    ensures
        opt_view(r) == digital_zoom_text(doc@),
{
    match doc.ratio(exif_field(0xa404)) {
        Some(q) if q.is_positive() => Some(cat(q.to_fixed(2).as_str(), "×")),
        _ => None,
    }
}

// ---------------------------------------------------------------------------
// Flash, picture size, resolution
// ---------------------------------------------------------------------------

/// The flash setting is a bit field: fired or not, the mode, and whether red-eye
/// reduction was on.
pub open spec fn flash_parts(v: u32) -> Seq<Seq<char>> {
    let fired = if v % 2 == 1 {
        "已闪"@
    } else {
        "未闪"@
    };
    let mode = match v / 8 % 4 {
        1 => seq!["强制闪光"@],
        2 => seq!["强制关闭"@],
        3 => seq!["自动"@],
        _ => Seq::empty(),
    };
    let red_eye = if v / 64 % 2 == 1 {
        seq!["防红眼"@]
    } else {
        Seq::empty()
    };
    seq![fired] + mode + red_eye
}

pub open spec fn flash_text(doc: DocModel) -> Option<Seq<char>> {
    match doc.uint(exif_tag(0x9209)) {
        Some(v) => Some(joined(flash_parts(v), " · "@)),
        None => None,
    }
}

fn flash(doc: &ExifDoc) -> (r: Option<String>)
    ensures
        opt_view(r) == flash_text(doc@),
{
    let v: u32 = match doc.uint(exif_field(0x9209)) {
        Some(v) => v,
        None => return None,
    };
    let mut parts: Vec<String> = Vec::new();
    if v % 2 == 1 {
        parts.push("已闪".to_string());
    } else {
        parts.push("未闪".to_string());
    }
    let mode: u32 = v / 8 % 4;
    if mode == 1 {
        parts.push("强制闪光".to_string());
    } else if mode == 2 {
        parts.push("强制关闭".to_string());
    } else if mode == 3 {
        parts.push("自动".to_string());
    }
    if v / 64 % 2 == 1 {
        parts.push("防红眼".to_string());
    }
    assert(views(parts@) =~= flash_parts(v));
    Some(join(&parts, " · "))
}

/// The orientation is shown where the picture was turned.
pub open spec fn orientation_text(doc: DocModel) -> Option<Seq<char>> {
    match enum_text(doc, tiff_tag(0x0112), Table::Orientation) {
        Some(s) if s != "正常"@ => Some(s),
        _ => None,
    }
}

fn orientation(doc: &ExifDoc) -> (r: Option<String>)
    ensures
        opt_view(r) == orientation_text(doc@),
{
    match enum_of(doc, tiff_field(0x0112), Table::Orientation) {
        Some(s) => if same(s.as_str(), "正常") {
            None
        } else {
            Some(s)
        },
        None => None,
    }
}

/// Width and height, or the one of them that is known.
pub open spec fn pixel_size_text(doc: DocModel) -> Option<Seq<char>> {
    match (doc.uint(exif_tag(0xa002)), doc.uint(exif_tag(0xa003))) {
        (Some(w), Some(h)) => Some(dec(w as nat) + " × "@ + dec(h as nat)),
        (Some(w), None) => Some(dec(w as nat)),
        (None, Some(h)) => Some(dec(h as nat)),
        (None, None) => None,
    }
}

fn pixel_size(doc: &ExifDoc) -> (r: Option<String>)
    ensures
        opt_view(r) == pixel_size_text(doc@),
{
    match (doc.uint(exif_field(0xa002)), doc.uint(exif_field(0xa003))) {
        (Some(w), Some(h)) => Some(
            cat3(decimal(w as u64).as_str(), " × ", decimal(h as u64).as_str()),
        ),
        (Some(w), None) => Some(decimal(w as u64)),
        (None, Some(h)) => Some(decimal(h as u64)),
        (None, None) => None,
    }
}

/// The bits of each channel, one after the other.
pub open spec fn bits_per_sample_text(doc: DocModel) -> Option<Seq<char>> {
    match doc.get(tiff_tag(0x0102)) {
        Some(ValueModel::Short(v)) if v.len() > 0 => Some(
            joined(v.map_values(|x: u16| dec(x as nat)), " / "@),
        ),
        _ => None,
    }
}

fn bits_per_sample(doc: &ExifDoc) -> (r: Option<String>)
    ensures
        opt_view(r) == bits_per_sample_text(doc@),
{
    match doc.get(tiff_field(0x0102)) {
        Some(ExifValue::Short(v)) => {
            if v.len() == 0 {
                return None;
            }
            let mut parts: Vec<String> = Vec::new();
            for i in 0..v.len()
                invariant
                    views(parts@) =~= v@.take(i as int).map_values(|x: u16| dec(x as nat)),
            {
                parts.push(decimal(v[i] as u64));
                proof {
                    let f = |x: u16| dec(x as nat);
                    assert(v@.take(i + 1) =~= v@.take(i as int).push(v@[i as int]));
                    assert(v@.take(i + 1).map_values(f) =~= v@.take(i as int).map_values(f).push(
                        dec(v@[i as int] as nat),
                    ));
                    assert(views(parts@) =~= v@.take(i + 1).map_values(f));
                }
            }
            assert(v@.take(v@.len() as int) =~= v@);
            Some(join(&parts, " / "))
        },
        _ => None,
    }
}

/// The resolution in its unit.
pub open spec fn resolution_text(doc: DocModel) -> Option<Seq<char>> {
    match doc.ratio(tiff_tag(0x011a)) {
        Some(q) => Some(
            trim_zeros(q.fixed(0)) + " "@ + match enum_text(
                doc,
                tiff_tag(0x0128),
                Table::ResolutionUnit,
            ) {
                Some(u) => u,
                None => "像素/单位"@,
            },
        ),
        None => None,
    }
}

fn resolution(doc: &ExifDoc) -> (r: Option<String>)
    ensures
        opt_view(r) == resolution_text(doc@),
{
    match doc.ratio(tiff_field(0x011a)) {
        Some(q) => {
            let unit = match enum_of(doc, tiff_field(0x0128), Table::ResolutionUnit) {
                Some(u) => u,
                None => "像素/单位".to_string(),
            };
            Some(cat3(trim_num(q, 0).as_str(), " ", unit.as_str()))
        },
        None => None,
    }
}

// ---------------------------------------------------------------------------
// Time, place, notes
// ---------------------------------------------------------------------------

/// The time zone of the shot, or else that of the file.
pub open spec fn zone_text(doc: DocModel) -> Option<Seq<char>> {
    match doc.ascii(exif_tag(0x9011)) {
        Some(s) => Some(s),
        None => doc.ascii(exif_tag(0x9010)),
    }
}

fn zone(doc: &ExifDoc) -> (r: Option<String>)
    ensures
        opt_view(r) == zone_text(doc@),
{
    match doc.ascii(exif_field(0x9011)) {
        Some(s) => Some(s),
        None => doc.ascii(exif_field(0x9010)),
    }
}

/// Degrees, minutes and seconds.
#[derive(Debug, Clone, Copy, PartialEq, Eq, Structural)]
pub struct Dms {
    pub degrees: Ratio,
    pub minutes: Ratio,
    pub seconds: Ratio,
}

pub open spec fn dms_in(doc: DocModel, t: Tag) -> Option<Dms> {
    match doc.get(t) {
        Some(ValueModel::Rational(v)) if v.len() >= 3 => Some(
            Dms {
                degrees: Ratio::Unsigned(v[0].0, v[0].1),
                minutes: Ratio::Unsigned(v[1].0, v[1].1),
                seconds: Ratio::Unsigned(v[2].0, v[2].1),
            },
        ),
        _ => None,
    }
}

fn dms(doc: &ExifDoc, t: Tag) -> (r: Option<Dms>)
    ensures
        r == dms_in(doc@, t),
{
    match doc.get(t) {
        Some(ExifValue::Rational(v)) if v.len() >= 3 => Some(
            Dms {
                degrees: Ratio::Unsigned(v[0].0, v[0].1),
                minutes: Ratio::Unsigned(v[1].0, v[1].1),
                seconds: Ratio::Unsigned(v[2].0, v[2].1),
            },
        ),
        _ => None,
    }
}

/// A position: latitude and longitude, and on which side of zero each lies.
#[derive(Debug, Clone, Copy, PartialEq, Eq, Structural)]
pub struct Position {
    pub latitude: Dms,
    pub south: bool,
    pub longitude: Dms,
    pub west: bool,
}

/// `s` is the letter `c`, in either case.
pub open spec fn is_letter(s: Seq<char>, small: char, capital: char) -> bool {
    s == seq![small] || s == seq![capital]
}

fn letter(s: &str, small: char, capital: char) -> (r: bool)
    ensures
        r == is_letter(s@, small, capital),
{
    let v = chars_of(s);
    let r = v.len() == 1 && (v[0] == small || v[0] == capital);
    proof {
        if r {
            assert(s@ =~= seq![s@[0]]);
        }
    }
    r
}

/// The position, where the file gives both angles and both sides.
pub open spec fn position_in(doc: DocModel) -> Option<Position> {
    match (
        dms_in(doc, gps_tag(0x0002)),
        dms_in(doc, gps_tag(0x0004)),
        doc.ascii(gps_tag(0x0001)),
        doc.ascii(gps_tag(0x0003)),
    ) {
        (Some(latitude), Some(longitude), Some(a), Some(b)) => Some(
            Position {
                latitude,
                south: is_letter(a, 's', 'S'),
                longitude,
                west: is_letter(b, 'w', 'W'),
            },
        ),
        _ => None,
    }
}

pub fn gps(doc: &ExifDoc) -> (r: Option<Position>)
    ensures
        r == position_in(doc@),
{
    let latitude = match dms(doc, gps_field(0x0002)) {
        Some(d) => d,
        None => return None,
    };
    let longitude = match dms(doc, gps_field(0x0004)) {
        Some(d) => d,
        None => return None,
    };
    let a = match doc.ascii(gps_field(0x0001)) {
        Some(s) => s,
        None => return None,
    };
    let b = match doc.ascii(gps_field(0x0003)) {
        Some(s) => s,
        None => return None,
    };
    Some(
        Position {
            latitude,
            south: letter(a.as_str(), 's', 'S'),
            longitude,
            west: letter(b.as_str(), 'w', 'W'),
        },
    )
}

/// The position is shown where the file gives it.
pub open spec fn position_text(doc: DocModel, floats: FloatModel) -> Option<Seq<char>> {
    match position_in(doc) {
        Some(_) => floats.position,
        None => None,
    }
}

fn position(doc: &ExifDoc, floats: &FloatTexts) -> (r: Option<String>)
    ensures
        opt_view(r) == position_text(doc@, floats@),
{
    match gps(doc) {
        Some(_) => clone_text(&floats.position),
        None => None,
    }
}

/// The altitude; below sea level it has a minus sign.
pub open spec fn altitude_text(doc: DocModel) -> Option<Seq<char>> {
    match doc.ratio(gps_tag(0x0006)) {
        Some(q) => Some(
            if doc.uint(gps_tag(0x0005)) == Some(1u32) {
                "-"@ + q.fixed(1) + " m"@
            } else {
                q.fixed(1) + " m"@
            },
        ),
        None => None,
    }
}

fn altitude(doc: &ExifDoc) -> (r: Option<String>)
    ensures
        opt_view(r) == altitude_text(doc@),
{
    match doc.ratio(gps_field(0x0006)) {
        Some(q) => {
            let below = match doc.uint(gps_field(0x0005)) {
                Some(v) => v == 1,
                None => false,
            };
            Some(
                if below {
                    cat3("-", q.to_fixed(1).as_str(), " m")
                } else {
                    cat(q.to_fixed(1).as_str(), " m")
                },
            )
        },
        None => None,
    }
}

/// The two-byte units of `b`, high byte first; those that are half of a
/// surrogate pair stand for no character and are left out, and so is a single
/// byte at the end.
pub open spec fn wide_chars(b: Seq<u8>) -> Seq<char>
    decreases b.len(),
{
    if b.len() < 2 {
        Seq::empty()
    } else {
        let u = b[0] as u32 * 256 + b[1] as u32;
        let rest = wide_chars(b.skip(2));
        if 0xd800 <= u <= 0xdfff {
            rest
        } else {
            seq![u as char] + rest
        }
    }
}

/// The marker of a comment in two-byte characters: `UNICODE` and a zero byte.
pub open spec fn is_wide_marker(b: Seq<u8>) -> bool {
    b.len() >= 8 && b.take(8) == seq![
        0x55u8,
        0x4eu8,
        0x49u8,
        0x43u8,
        0x4fu8,
        0x44u8,
        0x45u8,
        0u8,
    ]
}

/// The text of a comment: behind a marker of eight bytes, in two-byte characters
/// where the marker says so, else one character for each byte. A value that is no
/// longer than the marker is taken as text itself.
pub open spec fn comment_text(b: Seq<u8>) -> Seq<char> {
    let body = if b.len() > 8 {
        b.skip(8)
    } else {
        b
    };
    if is_wide_marker(b) {
        wide_chars(body)
    } else {
        latin(body)
    }
}

pub open spec fn user_comment_text(doc: DocModel) -> Option<Seq<char>> {
    match doc.get(exif_tag(0x9286)) {
        Some(ValueModel::Undefined(b)) => non_empty(trimmed(comment_text(b))),
        Some(ValueModel::Byte(b)) => non_empty(trimmed(comment_text(b))),
        _ => None,
    }
}

/// `char::from_u32` gives the character with a number, for every number that
/// belongs to one: those up to 10FFFF but for the surrogates.
pub assume_specification[ char::from_u32 ](i: u32) -> (r: Option<char>)
    ensures
        r is Some <==> (i <= 0xd7ff || 0xe000 <= i <= 0x10ffff),
        r matches Some(c) ==> c as u32 == i,
;

fn comment_chars(b: &Vec<u8>) -> (r: Vec<char>)
    ensures
        r@ == comment_text(b@),
{
    let n: usize = b.len();
    let from: usize = if n > 8 {
        8
    } else {
        0
    };
    let wide = n >= 8 && b[0] == 0x55 && b[1] == 0x4e && b[2] == 0x49 && b[3] == 0x43 && b[4]
        == 0x4f && b[5] == 0x44 && b[6] == 0x45 && b[7] == 0;
    let ghost body = b@.skip(from as int);
    proof {
        assert(b@.skip(0) =~= b@);
        if wide {
            assert(b@.take(8) =~= seq![
                0x55u8,
                0x4eu8,
                0x49u8,
                0x43u8,
                0x4fu8,
                0x44u8,
                0x45u8,
                0u8,
            ]);
        }
        if is_wide_marker(b@) {
            let m = b@.take(8);
            assert(m[0] == b@[0] && m[1] == b@[1] && m[2] == b@[2] && m[3] == b@[3] && m[4]
                == b@[4] && m[5] == b@[5] && m[6] == b@[6] && m[7] == b@[7]);
        }
        assert(wide == is_wide_marker(b@));
    }
    let mut out: Vec<char> = Vec::new();
    let mut i: usize = from;
    if wide {
        assert(out@ + wide_chars(b@.skip(i as int)) =~= wide_chars(body));
        while n - i >= 2
            invariant
                from <= i <= n == b@.len(),
                body == b@.skip(from as int),
                wide_chars(body) == out@ + wide_chars(b@.skip(i as int)),
            decreases n - i,
        {
            let u: u32 = b[i] as u32 * 256 + b[i + 1] as u32;
            let ghost rest = wide_chars(b@.skip(i + 2));
            proof {
                assert(b@.skip(i as int).skip(2) =~= b@.skip(i + 2));
            }
            if let Some(c) = char::from_u32(u) {
                proof {
                    vstd::utf8::char_u32_cast(c, u);
                }
                assert(out@ + (seq![c] + rest) =~= out@.push(c) + rest);
                out.push(c);
            }
            i = i + 2;
        }
        assert(out@ + wide_chars(b@.skip(i as int)) =~= out@);
    } else {
        while i < n
            invariant
                from <= i <= n == b@.len(),
                body == b@.skip(from as int),
                out@ == latin(body.take(i - from)),
            decreases n - i,
        {
            out.push(b[i] as char);
            i = i + 1;
            assert(out@ =~= latin(body.take(i - from)));
        }
        assert(body.take(n - from) =~= body);
    }
    out
}

fn user_comment(doc: &ExifDoc) -> (r: Option<String>)
    ensures
        opt_view(r) == user_comment_text(doc@),
{
    match doc.get(exif_field(0x9286)) {
        Some(ExifValue::Undefined(b)) => {
            let c = comment_chars(b);
            trim_to_some(&c)
        },
        Some(ExifValue::Byte(b)) => {
            let c = comment_chars(b);
            trim_to_some(&c)
        },
        _ => None,
    }
}

// ---------------------------------------------------------------------------
// The sections
// ---------------------------------------------------------------------------

/// The rows of the section 曝光, behind `out`.
pub open spec fn exposure_rows(doc: DocModel, out: Seq<ItemModel>) -> Seq<ItemModel> {
    let g = "曝光"@;
    let out = added(out, g, "曝光程序"@, enum_text(doc, exif_tag(0x8822), Table::ExposureProgram));
    let out = added(out, g, "曝光模式"@, enum_text(doc, exif_tag(0xa402), Table::ExposureMode));
    let out = added(out, g, "曝光补偿"@, bias_text(doc));
    let out = added(out, g, "测光模式"@, enum_text(doc, exif_tag(0x9207), Table::MeteringMode));
    let out = added(out, g, "闪光灯"@, flash_text(doc));
    let out = added(out, g, "亮度（APEX）"@, brightness_text(doc));
    let out = added(out, g, "推荐曝光指数"@, exposure_index_text(doc));
    out
}

/// The rows of the section 镜头, behind `out`.
pub open spec fn lens_rows(doc: DocModel, floats: FloatModel, out: Seq<ItemModel>) -> Seq<ItemModel> {
    let g = "镜头"@;
    let out = added(out, g, "镜头品牌"@, doc.ascii(exif_tag(0xa433)));
    let out = added(out, g, "镜头型号"@, doc.ascii(exif_tag(0xa434)));
    let out = added(out, g, "镜头序列号"@, doc.ascii(exif_tag(0xa435)));
    let out = added(out, g, "焦距"@, focal_length_text(doc));
    let out = added(out, g, "等效焦距（35mm）"@, focal_length_35_text(doc));
    let out = added(out, g, "最大光圈（APEX）"@, max_aperture_text(doc, floats));
    let out = added(out, g, "对焦距离"@, subject_distance_text(doc));
    let out = added(out, g, "数码变焦"@, digital_zoom_text(doc));
    out
}

/// The rows of the section 机身, behind `out`.
pub open spec fn body_rows(doc: DocModel, out: Seq<ItemModel>) -> Seq<ItemModel> {
    let g = "机身"@;
    let out = added(out, g, "品牌"@, doc.ascii(tiff_tag(0x010f)));
    let out = added(out, g, "型号"@, doc.ascii(tiff_tag(0x0110)));
    let out = added(out, g, "机身序列号"@, doc.ascii(exif_tag(0xa431)));
    let out = added(out, g, "固件 / 软件"@, doc.ascii(tiff_tag(0x0131)));
    let out = added(out, g, "EXIF 版本"@, doc.version);
    let out = added(out, g, "感光方式"@, enum_text(doc, exif_tag(0xa217), Table::SensingMethod));
    out
}

/// The rows of the section 图像, behind `out`.
pub open spec fn image_rows(doc: DocModel, out: Seq<ItemModel>) -> Seq<ItemModel> {
    let g = "图像"@;
    let out = added(out, g, "方向"@, orientation_text(doc));
    let out = added(out, g, "色彩空间"@, enum_text(doc, exif_tag(0xa001), Table::ColorSpace));
    let out = added(out, g, "白平衡"@, enum_text(doc, exif_tag(0xa403), Table::WhiteBalance));
    let out = added(out, g, "光源"@, enum_text(doc, exif_tag(0x9208), Table::LightSource));
    let out = added(out, g, "场景类型"@, enum_text(doc, exif_tag(0xa406), Table::SceneCapture));
    let out = added(out, g, "对比度"@, enum_text(doc, exif_tag(0xa408), Table::Tone));
    let out = added(out, g, "饱和度"@, enum_text(doc, exif_tag(0xa409), Table::Tone));
    let out = added(out, g, "锐度"@, enum_text(doc, exif_tag(0xa40a), Table::Tone));
    let out = added(out, g, "增益控制"@, enum_text(doc, exif_tag(0xa407), Table::GainControl));
    let out = added(out, g, "后期处理"@, enum_text(doc, exif_tag(0xa401), Table::CustomRendered));
    let out = added(out, g, "主体距离范围"@, enum_text(doc, exif_tag(0xa40c), Table::SubjectDistanceRange));
    let out = added(out, g, "像素尺寸"@, pixel_size_text(doc));
    let out = added(out, g, "压缩方式"@, enum_text(doc, tiff_tag(0x0103), Table::Compression));
    let out = added(out, g, "色彩模式"@, enum_text(doc, tiff_tag(0x0106), Table::Photometric));
    let out = added(out, g, "每像素位数"@, bits_per_sample_text(doc));
    let out = added(out, g, "分辨率"@, resolution_text(doc));
    out
}

/// The rows of the section 时间, behind `out`.
pub open spec fn time_rows(doc: DocModel, out: Seq<ItemModel>) -> Seq<ItemModel> {
    let g = "时间"@;
    let out = added(out, g, "拍摄时间"@, doc.ascii(exif_tag(0x9003)));
    let out = added(out, g, "数字化时间"@, doc.ascii(exif_tag(0x9004)));
    let out = added(out, g, "文件时间"@, doc.ascii(tiff_tag(0x0132)));
    let out = added(out, g, "时区偏移"@, zone_text(doc));
    let out = added(out, g, "亚秒"@, doc.ascii(exif_tag(0x9291)));
    out
}

/// The rows of the section 位置, behind `out`.
pub open spec fn place_rows(doc: DocModel, floats: FloatModel, out: Seq<ItemModel>) -> Seq<ItemModel> {
    let g = "位置"@;
    let out = added(out, g, "坐标"@, position_text(doc, floats));
    let out = added(out, g, "海拔"@, altitude_text(doc));
    out
}

/// The rows of the section 说明, behind `out`.
pub open spec fn note_rows(doc: DocModel, out: Seq<ItemModel>) -> Seq<ItemModel> {
    let g = "说明"@;
    let out = added(out, g, "图片描述"@, doc.ascii(tiff_tag(0x010e)));
    let out = added(out, g, "作者"@, doc.ascii(tiff_tag(0x013b)));
    let out = added(out, g, "版权"@, doc.ascii(tiff_tag(0x8298)));
    let out = added(out, g, "备注"@, user_comment_text(doc));
    out
}

fn push_exposure(doc: &ExifDoc, out: &mut Vec<ExifItem>)
    ensures
        items_view(final(out)@) == exposure_rows(doc@, items_view(old(out)@)),
{
    let g = "曝光";
    push(out, g, "曝光程序", enum_of(doc, exif_field(0x8822), Table::ExposureProgram));
    push(out, g, "曝光模式", enum_of(doc, exif_field(0xa402), Table::ExposureMode));
    push(out, g, "曝光补偿", bias(doc));
    push(out, g, "测光模式", enum_of(doc, exif_field(0x9207), Table::MeteringMode));
    push(out, g, "闪光灯", flash(doc));
    push(out, g, "亮度（APEX）", brightness(doc));
    push(out, g, "推荐曝光指数", exposure_index(doc));
}

fn push_lens(doc: &ExifDoc, floats: &FloatTexts, out: &mut Vec<ExifItem>)
    ensures
        items_view(final(out)@) == lens_rows(doc@, floats@, items_view(old(out)@)),
{
    let g = "镜头";
    push(out, g, "镜头品牌", doc.ascii(exif_field(0xa433)));
    push(out, g, "镜头型号", doc.ascii(exif_field(0xa434)));
    push(out, g, "镜头序列号", doc.ascii(exif_field(0xa435)));
    push(out, g, "焦距", focal_length(doc));
    push(out, g, "等效焦距（35mm）", focal_length_35(doc));
    push(out, g, "最大光圈（APEX）", max_aperture(doc, floats));
    push(out, g, "对焦距离", subject_distance(doc));
    push(out, g, "数码变焦", digital_zoom(doc));
}

fn push_body(doc: &ExifDoc, out: &mut Vec<ExifItem>)
    ensures
        items_view(final(out)@) == body_rows(doc@, items_view(old(out)@)),
{
    let g = "机身";
    push(out, g, "品牌", doc.ascii(tiff_field(0x010f)));
    push(out, g, "型号", doc.ascii(tiff_field(0x0110)));
    push(out, g, "机身序列号", doc.ascii(exif_field(0xa431)));
    push(out, g, "固件 / 软件", doc.ascii(tiff_field(0x0131)));
    push(out, g, "EXIF 版本", clone_text(&doc.version));
    push(out, g, "感光方式", enum_of(doc, exif_field(0xa217), Table::SensingMethod));
}

fn push_image(doc: &ExifDoc, out: &mut Vec<ExifItem>)
    ensures
        items_view(final(out)@) == image_rows(doc@, items_view(old(out)@)),
{
    let g = "图像";
    push(out, g, "方向", orientation(doc));
    push(out, g, "色彩空间", enum_of(doc, exif_field(0xa001), Table::ColorSpace));
    push(out, g, "白平衡", enum_of(doc, exif_field(0xa403), Table::WhiteBalance));
    push(out, g, "光源", enum_of(doc, exif_field(0x9208), Table::LightSource));
    push(out, g, "场景类型", enum_of(doc, exif_field(0xa406), Table::SceneCapture));
    push(out, g, "对比度", enum_of(doc, exif_field(0xa408), Table::Tone));
    push(out, g, "饱和度", enum_of(doc, exif_field(0xa409), Table::Tone));
    push(out, g, "锐度", enum_of(doc, exif_field(0xa40a), Table::Tone));
    push(out, g, "增益控制", enum_of(doc, exif_field(0xa407), Table::GainControl));
    push(out, g, "后期处理", enum_of(doc, exif_field(0xa401), Table::CustomRendered));
    push(out, g, "主体距离范围", enum_of(doc, exif_field(0xa40c), Table::SubjectDistanceRange));
    push(out, g, "像素尺寸", pixel_size(doc));
    push(out, g, "压缩方式", enum_of(doc, tiff_field(0x0103), Table::Compression));
    push(out, g, "色彩模式", enum_of(doc, tiff_field(0x0106), Table::Photometric));
    push(out, g, "每像素位数", bits_per_sample(doc));
    push(out, g, "分辨率", resolution(doc));
}

fn push_time(doc: &ExifDoc, out: &mut Vec<ExifItem>)
    ensures
        items_view(final(out)@) == time_rows(doc@, items_view(old(out)@)),
{
    let g = "时间";
    push(out, g, "拍摄时间", doc.ascii(exif_field(0x9003)));
    push(out, g, "数字化时间", doc.ascii(exif_field(0x9004)));
    push(out, g, "文件时间", doc.ascii(tiff_field(0x0132)));
    push(out, g, "时区偏移", zone(doc));
    push(out, g, "亚秒", doc.ascii(exif_field(0x9291)));
}

fn push_place(doc: &ExifDoc, floats: &FloatTexts, out: &mut Vec<ExifItem>)
    ensures
        items_view(final(out)@) == place_rows(doc@, floats@, items_view(old(out)@)),
{
    let g = "位置";
    push(out, g, "坐标", position(doc, floats));
    push(out, g, "海拔", altitude(doc));
}

fn push_note(doc: &ExifDoc, out: &mut Vec<ExifItem>)
    ensures
        items_view(final(out)@) == note_rows(doc@, items_view(old(out)@)),
{
    let g = "说明";
    push(out, g, "图片描述", doc.ascii(tiff_field(0x010e)));
    push(out, g, "作者", doc.ascii(tiff_field(0x013b)));
    push(out, g, "版权", doc.ascii(tiff_field(0x8298)));
    push(out, g, "备注", user_comment(doc));
}

/// All rows: exposure, lens, body, picture, time, place, notes.
pub open spec fn detail_rows(doc: DocModel, floats: FloatModel) -> Seq<ItemModel> {
    let out = exposure_rows(doc, Seq::empty());
    let out = lens_rows(doc, floats, out);
    let out = body_rows(doc, out);
    let out = image_rows(doc, out);
    let out = time_rows(doc, out);
    let out = place_rows(doc, floats, out);
    note_rows(doc, out)
}

/// The rows of the detail panel for the EXIF fields of a file, section by section.
pub fn detail_items(doc: &ExifDoc, floats: &FloatTexts) -> (r: Vec<ExifItem>)
    ensures
        items_view(r@) == detail_rows(doc@, floats@),
{
    let mut out: Vec<ExifItem> = Vec::new();
    assert(items_view(out@) =~= Seq::<ItemModel>::empty());
    push_exposure(doc, &mut out);
    push_lens(doc, floats, &mut out);
    push_body(doc, &mut out);
    push_image(doc, &mut out);
    push_time(doc, &mut out);
    push_place(doc, floats, &mut out);
    push_note(doc, &mut out);
    out
}

/// The rows of the detail panel for the content of a file; none where it has no EXIF
/// data.
pub fn read_full(data: &[u8], floats: &FloatTexts) -> (r: Vec<ExifItem>)
    ensures
        match container_fields(data@) {
            None => r@.len() == 0,
            Some(fields) => exists|doc: DocModel|
                #![trigger doc.version_fits()]
                doc.fields == fields && doc.version_fits() && items_view(r@) == detail_rows(
                    doc,
                    floats@,
                ),
        },
{
    match read_doc(data) {
        Ok(doc) => detail_items(&doc, floats),
        Err(_) => Vec::new(),
    }
}

// ---------------------------------------------------------------------------
// The focus area
// ---------------------------------------------------------------------------

/// The text for a focus area; the four numbers are shown as they are given.
pub open spec fn focus_value(
    x: Seq<char>,
    y: Seq<char>,
    w: Seq<char>,
    h: Seq<char>,
    mode: Option<Seq<char>>,
) -> Seq<char> {
    "横向 "@ + x + "%、纵向 "@ + y + "%（区域 "@ + w + "% × "@ + h + "%）"@ + match mode {
        Some(m) => " · "@ + m,
        None => Seq::empty(),
    }
}

pub fn focus_text(x: &str, y: &str, w: &str, h: &str, mode: &Option<String>) -> (r: String)
    ensures
        r@ == focus_value(x@, y@, w@, h@, opt_view(*mode)),
{
    let mut s = "横向 ".to_string();
    s.push_str(x);
    s.push_str("%、纵向 ");
    s.push_str(y);
    s.push_str("%（区域 ");
    s.push_str(w);
    s.push_str("% × ");
    s.push_str(h);
    s.push_str("%）");
    let tail = match mode {
        Some(m) => cat(" · ", m.as_str()),
        None => {
            let e = String::new();
            assert(e@ =~= Seq::<char>::empty());
            e
        },
    };
    s.push_str(tail.as_str());
    s
}

/// Where the row for the focus area goes: behind the last row of the exposure
/// section, so that the section stays in one piece; at the end where there is none.
pub open spec fn focus_place(rows: Seq<ItemModel>) -> int
    decreases rows.len(),
{
    if rows.len() == 0 {
        -1
    } else if rows.last().group == "曝光"@ {
        rows.len() as int
    } else {
        focus_place(rows.drop_last())
    }
}

/// The rows with one for the focus area among them.
pub open spec fn with_focus(rows: Seq<ItemModel>, value: Seq<char>) -> Seq<ItemModel> {
    let at = if focus_place(rows) < 0 {
        rows.len() as int
    } else {
        focus_place(rows)
    };
    rows.insert(at, ItemModel { group: "曝光"@, label: "对焦区域"@, value })
}

pub fn insert_focus(items: Vec<ExifItem>, value: String) -> (r: Vec<ExifItem>)
    ensures
        items_view(r@) == with_focus(items_view(items@), value@),
{
    let n: usize = items.len();
    let ghost rows = items_view(items@);
    let mut e: usize = n;
    proof {
        assert(rows.take(n as int) =~= rows);
    }
    while e > 0 && !same(items[e - 1].group.as_str(), "曝光")
        invariant
            e <= n == items@.len(),
            rows == items_view(items@),
            focus_place(rows) == focus_place(rows.take(e as int)),
        decreases e,
    {
        proof {
            assert(rows.take(e as int).drop_last() =~= rows.take(e - 1));
            assert(rows.take(e as int).last() == items@[e - 1]@);
        }
        e = e - 1;
    }
    proof {
        if e > 0 {
            assert(rows.take(e as int).last() == items@[e - 1]@);
        }
    }
    let at: usize = if e == 0 {
        n
    } else {
        e
    };
    let item = ExifItem { group: "曝光".to_string(), label: "对焦区域".to_string(), value };
    let mut out = items;
    out.insert(at, item);
    assert(items_view(out@) =~= rows.insert(at as int, item@));
    out
}

// ---------------------------------------------------------------------------
// Order
// ---------------------------------------------------------------------------

/// The place of a section in the panel.
pub open spec fn section_rank(g: Seq<char>) -> int {
    if g == "曝光"@ {
        0
    } else if g == "镜头"@ {
        1
    } else if g == "机身"@ {
        2
    } else if g == "图像"@ {
        3
    } else if g == "时间"@ {
        4
    } else if g == "位置"@ {
        5
    } else {
        6
    }
}

/// Sections come in their order, none later than the section with rank `top`, and
/// no row is blank.
pub open spec fn in_order(rows: Seq<ItemModel>, top: int) -> bool {
    &&& forall|i: int, j: int|
        0 <= i < j < rows.len() ==> section_rank((#[trigger] rows[i]).group) <= section_rank(
            (#[trigger] rows[j]).group,
        )
    &&& forall|i: int|
        0 <= i < rows.len() ==> (#[trigger] rows[i]).value.len() > 0 && section_rank(rows[i].group)
            <= top
}

proof fn lemma_added_in_order(
    rows: Seq<ItemModel>,
    group: Seq<char>,
    label: Seq<char>,
    value: Option<Seq<char>>,
    top: int,
)
    requires
        in_order(rows, top),
        section_rank(group) == top,
    ensures
        in_order(added(rows, group, label, value), top),
{
}

proof fn lemma_section(group: Seq<char>, top: int)
    requires
        section_rank(group) == top,
    ensures
        forall|rows: Seq<ItemModel>, label: Seq<char>, value: Option<Seq<char>>|
            in_order(rows, top) ==> in_order(#[trigger] added(rows, group, label, value), top),
{
    assert forall|rows: Seq<ItemModel>, label: Seq<char>, value: Option<Seq<char>>| in_order(
        rows,
        top,
    ) implies in_order(#[trigger] added(rows, group, label, value), top) by {
        lemma_added_in_order(rows, group, label, value, top);
    }
}

/// The panel shows its sections in a fixed order, exposure first, whatever the
/// file holds, and no blank rows.
pub proof fn law_sections_in_order(doc: DocModel, floats: FloatModel)
    ensures
        in_order(detail_rows(doc, floats), 6),
{
    reveal_strlit("曝光");
    reveal_strlit("镜头");
    reveal_strlit("机身");
    reveal_strlit("图像");
    reveal_strlit("时间");
    reveal_strlit("位置");
    reveal_strlit("说明");
    let g = ["曝光"@, "镜头"@, "机身"@, "图像"@, "时间"@, "位置"@, "说明"@];
    assert(g[0][0] != g[1][0] && g[0][0] != g[2][0] && g[0][0] != g[3][0] && g[0][0] != g[4][0]
        && g[0][0] != g[5][0] && g[0][0] != g[6][0]);
    assert(g[1][0] != g[2][0] && g[1][0] != g[3][0] && g[1][0] != g[4][0] && g[1][0] != g[5][0]
        && g[1][0] != g[6][0]);
    assert(g[2][0] != g[3][0] && g[2][0] != g[4][0] && g[2][0] != g[5][0] && g[2][0] != g[6][0]);
    assert(g[3][0] != g[4][0] && g[3][0] != g[5][0] && g[3][0] != g[6][0]);
    assert(g[4][0] != g[5][0] && g[4][0] != g[6][0]);
    assert(g[5][0] != g[6][0]);
    let a = exposure_rows(doc, Seq::empty());
    assert(in_order(a, 0)) by {
        lemma_section("曝光"@, 0);
    }
    let b = lens_rows(doc, floats, a);
    assert(in_order(b, 1)) by {
        lemma_section("镜头"@, 1);
        assert(in_order(a, 1));
    }
    let c = body_rows(doc, b);
    assert(in_order(c, 2)) by {
        lemma_section("机身"@, 2);
        assert(in_order(b, 2));
    }
    let d = image_rows(doc, c);
    assert(in_order(d, 3)) by {
        lemma_section("图像"@, 3);
        assert(in_order(c, 3));
    }
    let e = time_rows(doc, d);
    assert(in_order(e, 4)) by {
        lemma_section("时间"@, 4);
        assert(in_order(d, 4));
    }
    let f = place_rows(doc, floats, e);
    assert(in_order(f, 5)) by {
        lemma_section("位置"@, 5);
        assert(in_order(e, 5));
    }
    assert(in_order(note_rows(doc, f), 6)) by {
        lemma_section("说明"@, 6);
        assert(in_order(f, 6));
    }
}

proof fn lemma_focus_place(rows: Seq<ItemModel>)
    ensures
        -1 <= focus_place(rows) <= rows.len(),
        focus_place(rows) != 0,
        focus_place(rows) > 0 ==> rows[focus_place(rows) - 1].group == "曝光"@,
        forall|i: int|
            0 <= i < rows.len() && i >= focus_place(rows) ==> (#[trigger] rows[i]).group != "曝光"@,
    decreases rows.len(),
{
    if rows.len() > 0 && rows.last().group != "曝光"@ {
        lemma_focus_place(rows.drop_last());
        assert forall|i: int| 0 <= i < rows.len() && i >= focus_place(rows) implies (
        #[trigger] rows[i]).group != "曝光"@ by {
            if i < rows.len() - 1 {
                assert(rows[i] == rows.drop_last()[i]);
            }
        }
    }
}

/// The row for the focus area keeps the sections in order, wherever there is an
/// exposure section to put it in.
pub proof fn law_focus_keeps_the_order(rows: Seq<ItemModel>, value: Seq<char>)
    requires
        in_order(rows, 6),
        value.len() > 0,
        focus_place(rows) > 0,
    ensures
        in_order(with_focus(rows, value), 6),
{
    lemma_focus_place(rows);
    let at = focus_place(rows);
    let out = with_focus(rows, value);
    assert(section_rank("曝光"@) == 0);
    assert forall|i: int, j: int| 0 <= i < j < out.len() implies section_rank(
        (#[trigger] out[i]).group,
    ) <= section_rank((#[trigger] out[j]).group) by {
        let a = if i < at {
            i
        } else {
            i - 1
        };
        let b = if j < at {
            j
        } else {
            j - 1
        };
        if i != at && j != at {
            assert(out[i] == rows[a] && out[j] == rows[b]);
        } else if j == at {
            assert(out[i] == rows[i]);
            if i < at - 1 {
                assert(section_rank(rows[i].group) <= section_rank(rows[at - 1].group));
            }
        }
    }
    assert forall|i: int| 0 <= i < out.len() implies (#[trigger] out[i]).value.len() > 0
        && section_rank(out[i].group) <= 6 by {
        if i < at {
            assert(out[i] == rows[i]);
        } else if i > at {
            assert(out[i] == rows[i - 1]);
        }
    }
}

} // verus!
