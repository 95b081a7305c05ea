//! Shooting parameters read from a photo's Exif data.
use vstd::prelude::*;
use crate::text::{
    append_chars, remove_all, remove_all_exec, remove_chars, remove_chars_exec, str_chars,
    string_from_chars, trim, trim_chars,
};

verus! {

/// Whether `exif::Reader::read_from_container` reads Exif data from a file
/// whose bytes are `data`.
pub uninterp spec fn exif_readable(data: Seq<u8>) -> bool;

/// The text that the `exif` crate shows (`Field::display_value`) for the
/// field with tag number `number` in the IFD context `context` (0 TIFF, 1
/// Exif, 2 GPS, 3 interoperability) of the primary image, in the Exif data
/// read from `data`; `None` where there is no such field.
pub uninterp spec fn exif_field_text(data: Seq<u8>, context: u8, number: u16) -> Option<Seq<char>>;

/// The same as `exif_field_text`, with the unit appended as
/// `DisplayValue::with_unit` appends it.
pub uninterp spec fn exif_field_text_with_unit(data: Seq<u8>, context: u8, number: u16) -> Option<
    Seq<char>,
>;

/// The view of an optional string.
pub open spec fn opt_view(o: Option<String>) -> Option<Seq<char>> {
    match o {
        Some(s) => Some(s@),
        None => None,
    }
}

/// Reads the Exif data in the file bytes `data` with
/// `exif::Reader::read_from_container` and takes, for each tag of `tags`,
/// the text `Field::display_value` shows for it in the primary image. The
/// contract claims only that the outcome is what the `exif` crate computes
/// for these bytes and tags.
#[verifier::external_body]
pub(crate) fn read_exif_texts(data: &[u8], tags: &[(u8, u16)]) -> (r: Option<Vec<Option<String>>>)
    requires
        forall|i: int| 0 <= i < tags@.len() ==> #[trigger] tags@[i].0 < 4,
    ensures
        r is Some == exif_readable(data@),
        r matches Some(v) ==> v@.len() == tags@.len() && forall|i: int|
            0 <= i < v@.len() ==> opt_view(#[trigger] v@[i]) == exif_field_text(
                data@,
                tags@[i].0,
                tags@[i].1,
            ),
{
    let ex = exif::Reader::new().read_from_container(&mut std::io::Cursor::new(data)).ok()?;
    let ctx = [exif::Context::Tiff, exif::Context::Exif, exif::Context::Gps, exif::Context::Interop];
    Some(tags.iter().map(|&(c, n)| ex.get_field(exif::Tag(ctx[c as usize], n), exif::In::PRIMARY)
        .map(|f| f.display_value().to_string())).collect())
}

/// The same as `read_exif_texts`, with each text followed by its unit as
/// `DisplayValue::with_unit` writes it.
#[verifier::external_body]
pub(crate) fn read_exif_texts_with_unit(data: &[u8], tags: &[(u8, u16)]) -> (r: Option<
    Vec<Option<String>>,
>)
    requires
        forall|i: int| 0 <= i < tags@.len() ==> #[trigger] tags@[i].0 < 4,
    ensures
        r is Some == exif_readable(data@),
        r matches Some(v) ==> v@.len() == tags@.len() && forall|i: int|
            0 <= i < v@.len() ==> opt_view(#[trigger] v@[i]) == exif_field_text_with_unit(
                data@,
                tags@[i].0,
                tags@[i].1,
            ),
{
    let ex = exif::Reader::new().read_from_container(&mut std::io::Cursor::new(data)).ok()?;
    let ctx = [exif::Context::Tiff, exif::Context::Exif, exif::Context::Gps, exif::Context::Interop];
    Some(tags.iter().map(|&(c, n)| ex.get_field(exif::Tag(ctx[c as usize], n), exif::In::PRIMARY)
        .map(|f| f.display_value().with_unit(&ex).to_string())).collect())
}

/// An Exif tag that the library reads.
#[derive(Clone, Copy, Debug, PartialEq, Eq)]
pub enum ExifTag {
    Make,
    Model,
    LensMake,
    LensModel,
    FocalLengthIn35mmFilm,
    FocalLength,
    ExposureProgram,
    FNumber,
    ExposureTime,
    PhotographicSensitivity,
    DateTimeOriginal,
    MeteringMode,
    ExposureBiasValue,
    Flash,
    GPSAltitude,
    GPSLatitude,
    GPSLongitude,
}

/// The IFD context (0 TIFF, 1 Exif, 2 GPS) and number of a tag, as the
/// `exif` crate defines them.
pub open spec fn tag_code(tag: ExifTag) -> (u8, u16) {
    match tag {
        ExifTag::Make => (0, 0x10f),
        ExifTag::Model => (0, 0x110),
        ExifTag::LensMake => (1, 0xa433),
        ExifTag::LensModel => (1, 0xa434),
        ExifTag::FocalLengthIn35mmFilm => (1, 0xa405),
        ExifTag::FocalLength => (1, 0x920a),
        ExifTag::ExposureProgram => (1, 0x8822),
        ExifTag::FNumber => (1, 0x829d),
        ExifTag::ExposureTime => (1, 0x829a),
        ExifTag::PhotographicSensitivity => (1, 0x8827),
        ExifTag::DateTimeOriginal => (1, 0x9003),
        ExifTag::MeteringMode => (1, 0x9207),
        ExifTag::ExposureBiasValue => (1, 0x9204),
        ExifTag::Flash => (1, 0x9209),
        ExifTag::GPSAltitude => (2, 0x6),
        ExifTag::GPSLatitude => (2, 0x2),
        ExifTag::GPSLongitude => (2, 0x4),
    }
}

/// The position of a tag in `all_tags`.
pub open spec fn tag_index(tag: ExifTag) -> int {
    match tag {
        ExifTag::Make => 0,
        ExifTag::Model => 1,
        ExifTag::LensMake => 2,
        ExifTag::LensModel => 3,
        ExifTag::FocalLengthIn35mmFilm => 4,
        ExifTag::FocalLength => 5,
        ExifTag::ExposureProgram => 6,
        ExifTag::FNumber => 7,
        ExifTag::ExposureTime => 8,
        ExifTag::PhotographicSensitivity => 9,
        ExifTag::DateTimeOriginal => 10,
        ExifTag::MeteringMode => 11,
        ExifTag::ExposureBiasValue => 12,
        ExifTag::Flash => 13,
        ExifTag::GPSAltitude => 14,
        ExifTag::GPSLatitude => 15,
        ExifTag::GPSLongitude => 16,
    }
}

/// The tags that the library reads, in a fixed order.
pub open spec fn all_tags() -> Seq<ExifTag> {
    seq![
        ExifTag::Make,
        ExifTag::Model,
        ExifTag::LensMake,
        ExifTag::LensModel,
        ExifTag::FocalLengthIn35mmFilm,
        ExifTag::FocalLength,
        ExifTag::ExposureProgram,
        ExifTag::FNumber,
        ExifTag::ExposureTime,
        ExifTag::PhotographicSensitivity,
        ExifTag::DateTimeOriginal,
        ExifTag::MeteringMode,
        ExifTag::ExposureBiasValue,
        ExifTag::Flash,
        ExifTag::GPSAltitude,
        ExifTag::GPSLatitude,
        ExifTag::GPSLongitude,
    ]
}

proof fn lemma_tag_index(tag: ExifTag)
    ensures
        0 <= tag_index(tag) < 17,
        all_tags()[tag_index(tag)] == tag,
        all_tags().len() == 17,
{
}

impl ExifTag {
    /// The IFD context and number of the tag.
    pub fn code(&self) -> (r: (u8, u16))
        ensures
            r == tag_code(*self),
    {
        match self {
            ExifTag::Make => (0, 0x10f),
            ExifTag::Model => (0, 0x110),
            ExifTag::LensMake => (1, 0xa433),
            ExifTag::LensModel => (1, 0xa434),
            ExifTag::FocalLengthIn35mmFilm => (1, 0xa405),
            ExifTag::FocalLength => (1, 0x920a),
            ExifTag::ExposureProgram => (1, 0x8822),
            ExifTag::FNumber => (1, 0x829d),
            ExifTag::ExposureTime => (1, 0x829a),
            ExifTag::PhotographicSensitivity => (1, 0x8827),
            ExifTag::DateTimeOriginal => (1, 0x9003),
            ExifTag::MeteringMode => (1, 0x9207),
            ExifTag::ExposureBiasValue => (1, 0x9204),
            ExifTag::Flash => (1, 0x9209),
            ExifTag::GPSAltitude => (2, 0x6),
            ExifTag::GPSLatitude => (2, 0x2),
            ExifTag::GPSLongitude => (2, 0x4),
        }
    }

    fn index(&self) -> (r: usize)
        ensures
            r == tag_index(*self),
    {
        match self {
            ExifTag::Make => 0,
            ExifTag::Model => 1,
            ExifTag::LensMake => 2,
            ExifTag::LensModel => 3,
            ExifTag::FocalLengthIn35mmFilm => 4,
            ExifTag::FocalLength => 5,
            ExifTag::ExposureProgram => 6,
            ExifTag::FNumber => 7,
            ExifTag::ExposureTime => 8,
            ExifTag::PhotographicSensitivity => 9,
            ExifTag::DateTimeOriginal => 10,
            ExifTag::MeteringMode => 11,
            ExifTag::ExposureBiasValue => 12,
            ExifTag::Flash => 13,
            ExifTag::GPSAltitude => 14,
            ExifTag::GPSLatitude => 15,
            ExifTag::GPSLongitude => 16,
        }
    }
}

/// The codes of `all_tags`, in the same order.
fn all_tag_codes() -> (r: Vec<(u8, u16)>)
    ensures
        r@.len() == 17,
        forall|i: int| 0 <= i < 17 ==> #[trigger] r@[i] == tag_code(all_tags()[i]),
{
    let tags = vec![
        ExifTag::Make,
        ExifTag::Model,
        ExifTag::LensMake,
        ExifTag::LensModel,
        ExifTag::FocalLengthIn35mmFilm,
        ExifTag::FocalLength,
        ExifTag::ExposureProgram,
        ExifTag::FNumber,
        ExifTag::ExposureTime,
        ExifTag::PhotographicSensitivity,
        ExifTag::DateTimeOriginal,
        ExifTag::MeteringMode,
        ExifTag::ExposureBiasValue,
        ExifTag::Flash,
        ExifTag::GPSAltitude,
        ExifTag::GPSLatitude,
        ExifTag::GPSLongitude,
    ];
    assert(tags@ =~= all_tags());
    let mut out: Vec<(u8, u16)> = Vec::new();
    let mut i: usize = 0;
    while i < tags.len()
        invariant
            i <= tags.len(),
            tags@ == all_tags(),
            out@.len() == i,
            forall|j: int| 0 <= j < i ==> #[trigger] out@[j] == tag_code(all_tags()[j]),
        decreases tags.len() - i,
    {
        out.push(tags[i].code());
        i = i + 1;
    }
    out
}

/// The Exif texts of a file for every tag of `all_tags`, as the `exif`
/// crate shows them, with or without units.
pub struct ExifFields {
    /// The text of the field of each tag of `all_tags`, in that order.
    pub texts: Vec<Option<String>>,
    /// Whether the texts carry units.
    pub with_unit: bool,
}

/// The text the `exif` crate shows for `tag` in the Exif data of `data`.
pub open spec fn field_text(data: Seq<u8>, tag: ExifTag, with_unit: bool) -> Option<Seq<char>> {
    if with_unit {
        exif_field_text_with_unit(data, tag_code(tag).0, tag_code(tag).1)
    } else {
        exif_field_text(data, tag_code(tag).0, tag_code(tag).1)
    }
}

impl ExifFields {
    /// Whether the texts are those of the Exif data in `data`.
    pub open spec fn read_from(&self, data: Seq<u8>) -> bool {
        &&& self.texts@.len() == 17
        &&& forall|i: int|
            0 <= i < 17 ==> opt_view(#[trigger] self.texts@[i]) == field_text(
                data,
                all_tags()[i],
                self.with_unit,
            )
    }

    /// Reads the Exif texts of every tag from the bytes of an image file;
    /// `None` where the `exif` crate finds no Exif data in them.
    pub fn read(data: &[u8], with_unit: bool) -> (r: Option<ExifFields>)
        ensures
            r is Some == exif_readable(data@),
            r matches Some(f) ==> f.read_from(data@) && f.with_unit == with_unit,
    {
        let codes = all_tag_codes();
        assert(forall|i: int| 0 <= i < codes@.len() ==> #[trigger] codes@[i].0 < 4);
        let texts = if with_unit {
            read_exif_texts_with_unit(data, codes.as_slice())
        } else {
            read_exif_texts(data, codes.as_slice())
        };
        match texts {
            None => None,
            Some(texts) => Some(ExifFields { texts, with_unit }),
        }
    }
}

/// What `ImageExif::get_field_value` gives: the text of the field, or an
/// empty text where there is none.
pub open spec fn field_value(data: Seq<u8>, tag: ExifTag, with_unit: bool) -> Seq<char> {
    match field_text(data, tag, with_unit) {
        Some(t) => t,
        None => Seq::<char>::empty(),
    }
}

/// The characters that `trim_exif_field` removes from a field's text.
pub open spec fn quote_and_comma() -> Seq<char> {
    seq!['"', ',']
}

/// What `ImageExif::trim_exif_field` gives: the field's text without double
/// quotes and commas, and without leading and trailing white space.
pub open spec fn trimmed_field(data: Seq<u8>, tag: ExifTag) -> Seq<char> {
    trim(remove_chars(field_value(data, tag, false), quote_and_comma()))
}

/// A GPS position as Exif writes it.
#[derive(Clone, Debug)]
pub struct GPSLocation {
    pub alt: String,
    pub lng: String,
    pub lat: String,
}

/// The shooting parameters of a photo, each as the text Exif shows for it.
#[derive(Clone, Debug)]
pub struct ImageExif {
    pub make: String,
    pub lens: String,
    pub xp_prog: String,
    pub focal_len: String,
    pub av: String,
    pub tv: String,
    pub iso: String,
    pub shot_time: String,
    pub meter_mode: String,
    pub exp_cp: String,
    pub flash: String,
    pub loca: Option<GPSLocation>,
}

/// Why no shooting parameters could be read.
#[derive(Clone, Copy, Debug, PartialEq, Eq)]
pub enum ExifError {
    /// The file holds no Exif data that the `exif` crate can read.
    Unreadable,
}

/// The camera text: the make, a space, and the model with every occurrence
/// of the make removed.
pub open spec fn camera_text(data: Seq<u8>) -> Seq<char> {
    let make = trimmed_field(data, ExifTag::Make);
    make + seq![' '] + remove_all(trimmed_field(data, ExifTag::Model), make)
}

/// The lens text: the lens model, preceded by the lens make and `-` where
/// there is a lens make.
pub open spec fn lens_text(data: Seq<u8>) -> Seq<char> {
    let lens_make = trimmed_field(data, ExifTag::LensMake);
    let lens_model = trimmed_field(data, ExifTag::LensModel);
    if lens_make.len() == 0 {
        lens_model
    } else {
        lens_make + seq!['-'] + lens_model
    }
}

/// The focal length text: the 35 mm equivalent where there is one, else
/// the focal length.
pub open spec fn focal_length_text(data: Seq<u8>) -> Seq<char> {
    let f35 = trimmed_field(data, ExifTag::FocalLengthIn35mmFilm);
    if f35.len() == 0 {
        trimmed_field(data, ExifTag::FocalLength)
    } else {
        f35
    }
}

impl ImageExif {
    /// The text of the field of `tag`, or an empty text where there is none.
    pub fn get_field_value(fields: &ExifFields, tag: ExifTag) -> (r: String)
        requires
            fields.texts@.len() == 17,
        ensures
            r@ == match opt_view(fields.texts@[tag_index(tag)]) {
                Some(t) => t,
                None => Seq::<char>::empty(),
            },
    {
        proof {
            lemma_tag_index(tag);
        }
        match &fields.texts[tag.index()] {
            Some(t) => {
                let c = str_chars(t.as_str());
                string_from_chars(c.as_slice())
            },
            None => {
                let v: Vec<char> = Vec::new();
                string_from_chars(v.as_slice())
            },
        }
    }

    /// The text of the field of `tag` without double quotes and commas and
    /// without leading and trailing white space.
    pub fn trim_exif_field(fields: &ExifFields, tag: ExifTag) -> (r: String)
        requires
            fields.texts@.len() == 17,
        ensures
            r@ == trim(
                remove_chars(
                    match opt_view(fields.texts@[tag_index(tag)]) {
                        Some(t) => t,
                        None => Seq::<char>::empty(),
                    },
                    quote_and_comma(),
                ),
            ),
    {
        let v = Self::get_field_value(fields, tag);
        let c = str_chars(v.as_str());
        let drop = vec!['"', ','];
        assert(drop@ =~= quote_and_comma());
        let cleaned = remove_chars_exec(c.as_slice(), drop.as_slice());
        let trimmed = trim_chars(cleaned.as_slice());
        string_from_chars(trimmed.as_slice())
    }

    fn trimmed_chars(fields: &ExifFields, tag: ExifTag) -> (r: Vec<char>)
        requires
            fields.texts@.len() == 17,
        ensures
            r@ == trim(
                remove_chars(
                    match opt_view(fields.texts@[tag_index(tag)]) {
                        Some(t) => t,
                        None => Seq::<char>::empty(),
                    },
                    quote_and_comma(),
                ),
            ),
    {
        str_chars(Self::trim_exif_field(fields, tag).as_str())
    }

    /// The shooting parameters in the bytes `data` of an image file (a
    /// JPEG, TIFF, PNG, HEIF or WebP file), as `from_media_path` reads them
    /// from the file at a path.
    pub fn from_exif_data(data: &[u8]) -> (r: Result<ImageExif, ExifError>)
        ensures
            r is Err <==> !exif_readable(data@),
            r matches Err(e) ==> e == ExifError::Unreadable,
            r matches Ok(x) ==> {
                &&& x.make@ == camera_text(data@)
                &&& x.lens@ == lens_text(data@)
                &&& x.xp_prog@ == trimmed_field(data@, ExifTag::ExposureProgram)
                &&& x.focal_len@ == focal_length_text(data@)
                &&& x.av@ == trimmed_field(data@, ExifTag::FNumber)
                &&& x.tv@ == trimmed_field(data@, ExifTag::ExposureTime)
                &&& x.iso@ == trimmed_field(data@, ExifTag::PhotographicSensitivity)
                &&& x.shot_time@ == trimmed_field(data@, ExifTag::DateTimeOriginal)
                &&& x.meter_mode@ == trimmed_field(data@, ExifTag::MeteringMode)
                &&& x.exp_cp@ == trimmed_field(data@, ExifTag::ExposureBiasValue)
                &&& x.flash@ == trimmed_field(data@, ExifTag::Flash)
                &&& x.loca matches Some(l) && l.alt@ == trimmed_field(data@, ExifTag::GPSAltitude)
                    && l.lat@ == trimmed_field(data@, ExifTag::GPSLatitude) && l.lng@
                    == trimmed_field(data@, ExifTag::GPSLongitude)
            },
    {
        let fields = match ExifFields::read(data, false) {
            None => return Err(ExifError::Unreadable),
            Some(f) => f,
        };
        proof {
            assert forall|t: ExifTag| #![trigger tag_index(t)]
                opt_view(fields.texts@[tag_index(t)]) == field_text(data@, t, false) by {
                lemma_tag_index(t);
            }
        }
        let make = Self::trimmed_chars(&fields, ExifTag::Make);
        let model_raw = Self::trimmed_chars(&fields, ExifTag::Model);
        let model = remove_all_exec(model_raw.as_slice(), make.as_slice());
        let mut camera = make.clone();
        camera.push(' ');
        append_chars(&mut camera, model.as_slice());
        let lens_make = Self::trimmed_chars(&fields, ExifTag::LensMake);
        let lens_model = Self::trimmed_chars(&fields, ExifTag::LensModel);
        let lens = if lens_make.len() == 0 {
            lens_model
        } else {
            let mut l = lens_make.clone();
            l.push('-');
            append_chars(&mut l, lens_model.as_slice());
            l
        };
        let f35 = Self::trimmed_chars(&fields, ExifTag::FocalLengthIn35mmFilm);
        let focal = if f35.len() == 0 {
            Self::trimmed_chars(&fields, ExifTag::FocalLength)
        } else {
            f35
        };
        let xp_prog = Self::trim_exif_field(&fields, ExifTag::ExposureProgram);
        let av = Self::trim_exif_field(&fields, ExifTag::FNumber);
        let tv = Self::trim_exif_field(&fields, ExifTag::ExposureTime);
        let iso = Self::trim_exif_field(&fields, ExifTag::PhotographicSensitivity);
        let shot = Self::trim_exif_field(&fields, ExifTag::DateTimeOriginal);
        let meter = Self::trim_exif_field(&fields, ExifTag::MeteringMode);
        let exp_cp = Self::trim_exif_field(&fields, ExifTag::ExposureBiasValue);
        let flash = Self::trim_exif_field(&fields, ExifTag::Flash);
        let alt = Self::trim_exif_field(&fields, ExifTag::GPSAltitude);
        let lat = Self::trim_exif_field(&fields, ExifTag::GPSLatitude);
        let lng = Self::trim_exif_field(&fields, ExifTag::GPSLongitude);
        proof {
            assert(camera@ =~= camera_text(data@));
            assert(lens@ =~= lens_text(data@));
        }
        Ok(ImageExif {
            make: string_from_chars(camera.as_slice()),
            lens: string_from_chars(lens.as_slice()),
            xp_prog,
            focal_len: string_from_chars(focal.as_slice()),
            av,
            tv,
            iso,
            shot_time: shot,
            meter_mode: meter,
            exp_cp,
            flash,
            loca: Some(GPSLocation { alt, lng, lat }),
        })
    }
}

} // verus!
