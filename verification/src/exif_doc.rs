//! The EXIF fields of a file as plain values.
//!
//! The `exif` crate reads the container and the TIFF structure. What it finds is
//! turned into values of this crate, and every rule on them works on those.
use vstd::prelude::*;

use crate::text::{opt_view, trim_vec, trimmed};

verus! {

#[verifier::external_type_specification]
#[verifier::external_body]
pub struct ExExifError(exif::Error);

#[verifier::external_type_specification]
#[verifier::external_body]
pub struct ExExifValue(exif::Value);

/// The directory that a tag number belongs to.
#[derive(Debug, Clone, Copy, PartialEq, Eq, Structural)]
pub enum TagGroup {
    Tiff,
    Exif,
    Gps,
    Interop,
    Unknown,
}

/// The value of a field. Types that no rule reads are `Other`.
#[derive(Debug, Clone)]
pub enum ExifValue {
    Byte(Vec<u8>),
    Ascii(Vec<Vec<u8>>),
    Short(Vec<u16>),
    Long(Vec<u32>),
    Rational(Vec<(u32, u32)>),
    SRational(Vec<(i32, i32)>),
    Undefined(Vec<u8>),
    Other,
}

/// What an `ExifValue` holds.
pub enum ValueModel {
    Byte(Seq<u8>),
    Ascii(Seq<Seq<u8>>),
    Short(Seq<u16>),
    Long(Seq<u32>),
    Rational(Seq<(u32, u32)>),
    SRational(Seq<(i32, i32)>),
    Undefined(Seq<u8>),
    Other,
}

impl View for ExifValue {
    type V = ValueModel;

    open spec fn view(&self) -> ValueModel {
        match *self {
            ExifValue::Byte(v) => ValueModel::Byte(v@),
            ExifValue::Ascii(v) => ValueModel::Ascii(v@.map_values(|s: Vec<u8>| s@)),
            ExifValue::Short(v) => ValueModel::Short(v@),
            ExifValue::Long(v) => ValueModel::Long(v@),
            ExifValue::Rational(v) => ValueModel::Rational(v@),
            ExifValue::SRational(v) => ValueModel::SRational(v@),
            ExifValue::Undefined(v) => ValueModel::Undefined(v@),
            ExifValue::Other => ValueModel::Other,
        }
    }
}

/// One field: its tag, the number of the image directory it belongs to (0 for
/// the picture itself) and its value.
#[derive(Debug, Clone)]
pub struct ExifField {
    pub group: TagGroup,
    pub number: u16,
    pub ifd: u16,
    pub value: ExifValue,
}

/// What an `ExifField` holds.
pub struct FieldModel {
    pub group: TagGroup,
    pub number: u16,
    pub ifd: u16,
    pub value: ValueModel,
}

impl View for ExifField {
    type V = FieldModel;

    open spec fn view(&self) -> FieldModel {
        FieldModel {
            group: self.group,
            number: self.number,
            ifd: self.ifd,
            value: self.value@,
        }
    }
}

/// A field as the `exif` crate hands it out, with its value still in that
/// crate's type.
pub struct RawField {
    pub group: TagGroup,
    pub number: u16,
    pub ifd: u16,
    pub value: exif::Value,
}

impl View for RawField {
    type V = FieldModel;

    open spec fn view(&self) -> FieldModel {
        FieldModel {
            group: self.group,
            number: self.number,
            ifd: self.ifd,
            value: held(self.value),
        }
    }
}

/// The numbers, texts or bytes that a value of the `exif` crate holds.
pub uninterp spec fn held(v: exif::Value) -> ValueModel;

/// The fields that `exif::Reader::read_from_container` finds in the content of a
/// file, in its order; `None` where it reports an error.
pub uninterp spec fn container_fields(data: Seq<u8>) -> Option<Seq<FieldModel>>;

/// The text that the `exif` crate shows for an `ExifVersion` field with the given
/// value.
pub uninterp spec fn version_text(v: ValueModel) -> Seq<char>;

/// `exif::Reader::read_from_container` over the bytes of a file, and the fields
/// that `exif::Exif::fields` then lists. The contract only names the outcome:
/// the same bytes always give the same fields, or always an error.
#[verifier::external_body]
fn read_container(data: &[u8]) -> (r: Result<Vec<RawField>, exif::Error>)
    ensures
        r is Ok <==> container_fields(data@) is Some,
        r matches Ok(v) ==> container_fields(data@) == Some(v@.map_values(|f: RawField| f@)),
{
    let doc = exif::Reader::new().read_from_container(&mut std::io::Cursor::new(data))?;
    Ok(doc.fields().map(|f| RawField {
        group: match f.tag.context() {
            exif::Context::Tiff => TagGroup::Tiff,
            exif::Context::Exif => TagGroup::Exif,
            exif::Context::Gps => TagGroup::Gps,
            exif::Context::Interop => TagGroup::Interop,
            _ => TagGroup::Unknown,
        },
        number: f.tag.number(),
        ifd: f.ifd_num.index(),
        value: f.value.clone(),
    }).collect())
}

/// Takes an `exif::Value` apart, variant by variant.
#[verifier::external_body]
fn plain_value(v: &exif::Value) -> (r: ExifValue)
    ensures
        r@ == held(*v),
{
    match v {
        exif::Value::Byte(x) => ExifValue::Byte(x.clone()),
        exif::Value::Ascii(x) => ExifValue::Ascii(x.clone()),
        exif::Value::Short(x) => ExifValue::Short(x.clone()),
        exif::Value::Long(x) => ExifValue::Long(x.clone()),
        exif::Value::Rational(x) => ExifValue::Rational(x.iter().map(|q| (q.num, q.denom)).collect()),
        exif::Value::SRational(x) => ExifValue::SRational(x.iter().map(|q| (q.num, q.denom)).collect()),
        exif::Value::Undefined(x, _) => ExifValue::Undefined(x.clone()),
        _ => ExifValue::Other,
    }
}

/// `exif::Value::display_as` for the tag `ExifVersion`. The contract names the
/// text where the value is of a type that this crate keeps; of the text shown for
/// another type it says nothing.
#[verifier::external_body]
fn display_version(v: &exif::Value) -> (r: String)
    ensures
        !(held(*v) is Other) ==> r@ == version_text(held(*v)),
{
    v.display_as(exif::Tag::ExifVersion).to_string()
}

/// `exif::Rational::to_f64`, written with a fixed number of decimals by the
/// standard formatting of floating-point numbers. The contract names the text.
pub uninterp spec fn fixed_unsigned(num: u32, denom: u32, digits: nat) -> Seq<char>;

/// `exif::SRational::to_f64`, written in the same way.
pub uninterp spec fn fixed_signed(num: i32, denom: i32, digits: nat) -> Seq<char>;

/// Writes the quotient that `exif::Rational::to_f64` gives with `digits` decimals.
#[verifier::external_body]
fn write_unsigned(num: u32, denom: u32, digits: usize) -> (r: String)
    requires
        digits <= 16,
    ensures
        r@ == fixed_unsigned(num, denom, digits as nat),
{
    format!("{:.*}", digits, exif::Rational { num, denom }.to_f64())
}

/// Writes the quotient that `exif::SRational::to_f64` gives with `digits` decimals.
#[verifier::external_body]
fn write_signed(num: i32, denom: i32, digits: usize) -> (r: String)
    requires
        digits <= 16,
    ensures
        r@ == fixed_signed(num, denom, digits as nat),
{
    format!("{:.*}", digits, exif::SRational { num, denom }.to_f64())
}

// ---------------------------------------------------------------------------
// A file's fields
// ---------------------------------------------------------------------------

/// The EXIF fields of one file, and the text shown for its `ExifVersion` field.
#[derive(Debug, Clone)]
pub struct ExifDoc {
    pub fields: Vec<ExifField>,
    pub version: Option<String>,
}

/// What an `ExifDoc` holds.
pub struct DocModel {
    pub fields: Seq<FieldModel>,
    pub version: Option<Seq<char>>,
}

impl View for ExifDoc {
    type V = DocModel;

    open spec fn view(&self) -> DocModel {
        DocModel {
            fields: self.fields@.map_values(|f: ExifField| f@),
            version: opt_view(self.version),
        }
    }
}

/// A tag: its group and number.
#[derive(Debug, Clone, Copy, PartialEq, Eq, Structural)]
pub struct Tag {
    pub group: TagGroup,
    pub number: u16,
}

/// Whether a field of the picture itself has this tag.
pub open spec fn has_tag(f: FieldModel, t: Tag) -> bool {
    f.ifd == 0 && f.group == t.group && f.number == t.number
}

/// The value of the field with the tag `t`; where the tag occurs twice, the later
/// field counts.
pub open spec fn find_in(fields: Seq<FieldModel>, t: Tag) -> Option<ValueModel>
    decreases fields.len(),
{
    if fields.len() == 0 {
        None
    } else if has_tag(fields.last(), t) {
        Some(fields.last().value)
    } else {
        find_in(fields.drop_last(), t)
    }
}

pub open spec fn exif_version_tag() -> Tag {
    Tag { group: TagGroup::Exif, number: 0x9000 }
}

impl DocModel {
    pub open spec fn get(self, t: Tag) -> Option<ValueModel> {
        find_in(self.fields, t)
    }

    /// The version text belongs to the `ExifVersion` field.
    pub open spec fn version_fits(self) -> bool {
        match self.get(exif_version_tag()) {
            None => self.version is None,
            Some(v) => self.version is Some && (!(v is Other) ==> self.version == Some(
                version_text(v),
            )),
        }
    }
}

/// Why a file gives no EXIF fields.
#[derive(Debug, Clone, Copy, PartialEq, Eq, Structural)]
pub enum ExifError {
    /// No container with EXIF data in it, or the data is damaged.
    Unreadable,
}

/// Reads the EXIF fields from the content of a file.
pub fn read_doc(data: &[u8]) -> (r: Result<ExifDoc, ExifError>)
    ensures
        match container_fields(data@) {
            None => r == Err::<ExifDoc, ExifError>(ExifError::Unreadable),
            Some(fields) => r is Ok && r->Ok_0@.fields == fields && r->Ok_0@.version_fits(),
        },
{
    let raw = match read_container(data) {
        Ok(v) => v,
        Err(_) => return Err(ExifError::Unreadable),
    };
    let ghost models = raw@.map_values(|f: RawField| f@);
    let mut fields: Vec<ExifField> = Vec::new();
    let mut version: Option<String> = None;
    let ghost tag = exif_version_tag();
    for i in 0..raw.len()
        invariant
            models == raw@.map_values(|f: RawField| f@),
            fields@.map_values(|f: ExifField| f@) =~= models.take(i as int),
            tag == exif_version_tag(),
            (DocModel { fields: models.take(i as int), version: opt_view(version) }).version_fits(),
    {
        let f = &raw[i];
        proof {
            let t = models.take(i + 1);
            assert(t.drop_last() =~= models.take(i as int));
            assert(t.last() == f@);
        }
        if f.ifd == 0 && f.group == TagGroup::Exif && f.number == 0x9000 {
            version = Some(display_version(&f.value));
        }
        let value = plain_value(&f.value);
        let plain = ExifField { group: f.group, number: f.number, ifd: f.ifd, value };
        assert(plain@ == f@);
        fields.push(plain);
    }
    assert(models.take(raw@.len() as int) =~= models);
    Ok(ExifDoc { fields, version })
}

impl ExifDoc {
    /// The value of the field with the tag `t`.
    pub fn get(&self, t: Tag) -> (r: Option<&ExifValue>)
        ensures
            match r {
                Some(v) => self@.get(t) == Some(v@),
                None => self@.get(t) is None,
            },
    {
        let ghost all = self@.fields;
        let mut i: usize = self.fields.len();
        proof {
            assert(all.take(i as int) =~= all);
        }
        while i > 0
            invariant
                i <= self.fields@.len(),
                all == self@.fields,
                find_in(all, t) == find_in(all.take(i as int), t),
            decreases i,
        {
            let f = &self.fields[i - 1];
            proof {
                assert(all.take(i as int).drop_last() =~= all.take(i - 1));
                assert(all.take(i as int).last() == f@);
            }
            if f.ifd == 0 && f.group == t.group && f.number == t.number {
                return Some(&f.value);
            }
            i = i - 1;
        }
        None
    }
}

// ---------------------------------------------------------------------------
// Readings of a value
// ---------------------------------------------------------------------------

/// A quotient as the file gives it.
#[derive(Debug, Clone, Copy, PartialEq, Eq, Structural)]
pub enum Ratio {
    Unsigned(u32, u32),
    Signed(i32, i32),
}

/// A value read as a number: its first quotient, or its first integer over 1.
pub open spec fn ratio_in(v: ValueModel) -> Option<Ratio> {
    match v {
        ValueModel::Rational(s) if s.len() > 0 => Some(Ratio::Unsigned(s[0].0, s[0].1)),
        ValueModel::SRational(s) if s.len() > 0 => Some(Ratio::Signed(s[0].0, s[0].1)),
        ValueModel::Short(s) if s.len() > 0 => Some(Ratio::Unsigned(s[0] as u32, 1)),
        ValueModel::Long(s) if s.len() > 0 => Some(Ratio::Unsigned(s[0], 1)),
        _ => None,
    }
}

/// A value read as an unsigned integer: its first one.
pub open spec fn uint_in(v: ValueModel) -> Option<u32> {
    match v {
        ValueModel::Byte(s) if s.len() > 0 => Some(s[0] as u32),
        ValueModel::Short(s) if s.len() > 0 => Some(s[0] as u32),
        ValueModel::Long(s) if s.len() > 0 => Some(s[0]),
        _ => None,
    }
}

/// The bytes in front of the first zero byte.
pub open spec fn until_nul(b: Seq<u8>) -> Seq<u8>
    decreases b.len(),
{
    if b.len() == 0 || b[0] == 0 {
        Seq::empty()
    } else {
        seq![b[0]] + until_nul(b.skip(1))
    }
}

/// Each byte as the character with its number.
pub open spec fn latin(b: Seq<u8>) -> Seq<char> {
    b.map_values(|x: u8| x as char)
}

/// A text, where anything is left of it.
pub open spec fn non_empty(s: Seq<char>) -> Option<Seq<char>> {
    if s.len() == 0 {
        None
    } else {
        Some(s)
    }
}

/// A value read as text: its first string up to a zero byte, without white space
/// around it, where anything is left.
pub open spec fn ascii_in(v: ValueModel) -> Option<Seq<char>> {
    match v {
        ValueModel::Ascii(s) if s.len() > 0 => non_empty(trimmed(latin(until_nul(s[0])))),
        _ => None,
    }
}

impl DocModel {
    pub open spec fn ratio(self, t: Tag) -> Option<Ratio> {
        match self.get(t) {
            Some(v) => ratio_in(v),
            None => None,
        }
    }

    pub open spec fn uint(self, t: Tag) -> Option<u32> {
        match self.get(t) {
            Some(v) => uint_in(v),
            None => None,
        }
    }

    pub open spec fn ascii(self, t: Tag) -> Option<Seq<char>> {
        match self.get(t) {
            Some(v) => ascii_in(v),
            None => None,
        }
    }
}

/// The characters of the bytes up to the first zero byte.
fn text_until_nul(b: &Vec<u8>) -> (r: Vec<char>)
    ensures
        r@ == latin(until_nul(b@)),
{
    let mut out: Vec<char> = Vec::new();
    let mut i: usize = 0;
    proof {
        assert(b@.skip(0) =~= b@);
        assert(out@ + latin(until_nul(b@)) =~= latin(until_nul(b@)));
    }
    while i < b.len() && b[i] != 0
        invariant
            i <= b@.len(),
            latin(until_nul(b@)) == out@ + latin(until_nul(b@.skip(i as int))),
        decreases b@.len() - i,
    {
        proof {
            let rest = b@.skip(i as int);
            assert(rest.skip(1) =~= b@.skip(i + 1));
            assert(latin(until_nul(rest)) =~= seq![rest[0] as char] + latin(
                until_nul(rest.skip(1)),
            ));
            assert(out@ + (seq![rest[0] as char] + latin(until_nul(rest.skip(1)))) =~= out@.push(
                rest[0] as char,
            ) + latin(until_nul(rest.skip(1))));
        }
        out.push(b[i] as char);
        i = i + 1;
    }
    assert(out@ + latin(until_nul(b@.skip(i as int))) =~= out@);
    out
}

/// A text without white space around it, where anything is left.
pub fn trim_to_some(v: &Vec<char>) -> (r: Option<String>)
    ensures
        opt_view(r) == non_empty(trimmed(v@)),
{
    let s = trim_vec(v);
    let n: usize = crate::text::chars_of(s.as_str()).len();
    if n == 0 {
        None
    } else {
        Some(s)
    }
}

impl ExifValue {
    pub fn ratio(&self) -> (r: Option<Ratio>)
        ensures
            r == ratio_in(self@),
    {
        match self {
            ExifValue::Rational(v) if v.len() > 0 => Some(Ratio::Unsigned(v[0].0, v[0].1)),
            ExifValue::SRational(v) if v.len() > 0 => Some(Ratio::Signed(v[0].0, v[0].1)),
            ExifValue::Short(v) if v.len() > 0 => Some(Ratio::Unsigned(v[0] as u32, 1)),
            ExifValue::Long(v) if v.len() > 0 => Some(Ratio::Unsigned(v[0], 1)),
            _ => None,
        }
    }

    pub fn uint(&self) -> (r: Option<u32>)
        ensures
            r == uint_in(self@),
    {
        match self {
            ExifValue::Byte(v) if v.len() > 0 => Some(v[0] as u32),
            ExifValue::Short(v) if v.len() > 0 => Some(v[0] as u32),
            ExifValue::Long(v) if v.len() > 0 => Some(v[0]),
            _ => None,
        }
    }

    pub fn ascii(&self) -> (r: Option<String>)
        ensures
            opt_view(r) == ascii_in(self@),
    {
        match self {
            ExifValue::Ascii(v) if v.len() > 0 => {
                let c = text_until_nul(&v[0]);
                trim_to_some(&c)
            },
            _ => None,
        }
    }
}

impl ExifDoc {
    pub fn ratio(&self, t: Tag) -> (r: Option<Ratio>)
        ensures
            r == self@.ratio(t),
    {
        match self.get(t) {
            Some(v) => v.ratio(),
            None => None,
        }
    }

    pub fn uint(&self, t: Tag) -> (r: Option<u32>)
        ensures
            r == self@.uint(t),
    {
        match self.get(t) {
            Some(v) => v.uint(),
            None => None,
        }
    }

    pub fn ascii(&self, t: Tag) -> (r: Option<String>)
        ensures
            opt_view(r) == self@.ascii(t),
    {
        match self.get(t) {
            Some(v) => v.ascii(),
            None => None,
        }
    }
}

impl Ratio {
    /// The quotient is greater than zero; a zero under a positive numerator makes
    /// it infinite.
    pub open spec fn positive(self) -> bool {
        match self {
            Ratio::Unsigned(n, d) => n > 0,
            Ratio::Signed(n, d) => (n > 0 && d >= 0) || (n < 0 && d < 0),
        }
    }

    /// The quotient is less than a billionth away from zero.
    pub open spec fn near_zero(self) -> bool {
        match self {
            Ratio::Unsigned(n, d) => n * 1_000_000_000 < d,
            Ratio::Signed(n, d) => vstd::math::abs(n as int) * 1_000_000_000 < vstd::math::abs(
                d as int,
            ),
        }
    }

    /// The quotient with a fixed number of decimals.
    pub open spec fn fixed(self, digits: nat) -> Seq<char> {
        match self {
            Ratio::Unsigned(n, d) => fixed_unsigned(n, d, digits),
            Ratio::Signed(n, d) => fixed_signed(n, d, digits),
        }
    }

    pub fn is_positive(&self) -> (r: bool)
        ensures
            r == self.positive(),
    {
        match *self {
            Ratio::Unsigned(n, _) => n > 0,
            Ratio::Signed(n, d) => (n > 0 && d >= 0) || (n < 0 && d < 0),
        }
    }

    pub fn is_near_zero(&self) -> (r: bool)
        ensures
            r == self.near_zero(),
    {
        match *self {
            Ratio::Unsigned(n, d) => n as u64 * 1_000_000_000 < d as u64,
            Ratio::Signed(n, d) => {
                let a: i64 = if n < 0 {
                    -(n as i64)
                } else {
                    n as i64
                };
                let b: i64 = if d < 0 {
                    -(d as i64)
                } else {
                    d as i64
                };
                a * 1_000_000_000 < b
            },
        }
    }

    pub fn to_fixed(&self, digits: usize) -> (r: String)
        requires
            digits <= 16,
        ensures
            r@ == self.fixed(digits as nat),
    {
        match *self {
            Ratio::Unsigned(n, d) => write_unsigned(n, d, digits),
            Ratio::Signed(n, d) => write_signed(n, d, digits),
        }
    }
}

/// Where a tag occurs twice, the later field counts; a field with another tag, or of
/// another picture in the file, changes nothing.
pub proof fn law_later_fields_count(fields: Seq<FieldModel>, f: FieldModel, t: Tag)
    ensures
        f.ifd == 0 && f.group == t.group && f.number == t.number ==> find_in(fields.push(f), t)
            == Some(f.value),
        f.ifd != 0 || f.group != t.group || f.number != t.number ==> find_in(fields.push(f), t)
            == find_in(fields, t),
        find_in(Seq::empty(), t) is None,
{
    assert(fields.push(f).drop_last() =~= fields);
}

/// A value is read by its first entry: numbers of any width as they are, quotients as they
/// are, and whole numbers over one.
pub proof fn law_first_entries_are_read(a: u8, b: u16, c: u32, d: u32, x: i32, y: i32)
    ensures
        uint_in(ValueModel::Byte(seq![a])) == Some(a as u32),
        uint_in(ValueModel::Short(seq![b])) == Some(b as u32),
        uint_in(ValueModel::Long(seq![c])) == Some(c),
        ratio_in(ValueModel::Rational(seq![(c, d)])) == Some(Ratio::Unsigned(c, d)),
        ratio_in(ValueModel::SRational(seq![(x, y)])) == Some(Ratio::Signed(x, y)),
        ratio_in(ValueModel::Short(seq![b])) == Some(Ratio::Unsigned(b as u32, 1)),
        ratio_in(ValueModel::Long(seq![c])) == Some(Ratio::Unsigned(c, 1)),
        uint_in(ValueModel::Other) is None,
        ratio_in(ValueModel::Other) is None,
        ascii_in(ValueModel::Other) is None,
{
}

} // verus!
