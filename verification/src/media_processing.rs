//! Earlier form of the media processing: shooting parameters with units and
//! preview files at several sizes.
use vstd::prelude::*;
use crate::image_exif::{field_value, opt_view, tag_index, ExifError, ExifFields, ExifTag};
use crate::text::{
    append_chars, decimal, occurs_at, push_digits, remove_chars, remove_chars_exec,
    str_chars, string_from_chars, to_lowercase, unicode_lowercase,
};

verus! {

/// The shooting parameters of a photo, with units, and the exposure
/// program as one upper-case letter.
#[derive(Clone, Debug)]
pub struct ImageExif {
    /// Camera make and model.
    pub make: String,
    /// Lens make and model.
    pub lens: String,
    /// Exposure program letter.
    pub xp_prog: char,
    /// Focal length.
    pub focal_len: String,
    /// Aperture.
    pub aperture: String,
    /// Shutter speed.
    pub shutter: String,
    /// Sensitivity.
    pub iso: String,
    /// When the photo was taken.
    pub shot_time: String,
}

/// `c` with ASCII lower-case letters mapped to upper case, as
/// `char::to_ascii_uppercase` maps it.
pub open spec fn ascii_upper(c: char) -> char {
    if 97 <= c as u32 <= 122 {
        ((c as u32) - 32) as char
    } else {
        c
    }
}

fn to_ascii_uppercase(c: char) -> (r: char)
    ensures
        r == ascii_upper(c),
{
    let cu = c as u32;
    if 97 <= cu && cu <= 122 {
        let b = (cu - 32) as u8;
        assert(b == cu - 32);
        b as char
    } else {
        c
    }
}

/// The text of the field of `tag`, with units, without double quotes.
pub open spec fn unquoted_field(data: Seq<u8>, tag: ExifTag) -> Seq<char> {
    remove_chars(field_value(data, tag, true), seq!['"'])
}

/// The exposure program letter: the first character of the field's text in
/// upper case, or a space where the text is empty.
pub open spec fn exposure_program_letter(data: Seq<u8>) -> char {
    let t = field_value(data, ExifTag::ExposureProgram, true);
    if t.len() > 0 {
        ascii_upper(t[0])
    } else {
        ' '
    }
}

impl ImageExif {
    /// The parameters as given.
    pub fn new(
        make: String,
        lens: String,
        xp_prog: char,
        focal_len: String,
        aperture: String,
        shutter: String,
        iso: String,
        shot_time: String,
    ) -> (r: Self)
        ensures
            r.make == make,
            r.lens == lens,
            r.xp_prog == xp_prog,
            r.focal_len == focal_len,
            r.aperture == aperture,
            r.shutter == shutter,
            r.iso == iso,
            r.shot_time == shot_time,
    {
        Self { make, lens, xp_prog, focal_len, aperture, shutter, iso, shot_time }
    }

    /// The text of the field of `tag` with its unit, or an empty text where
    /// there is none.
    pub fn get_field_value(fields: &ExifFields, tag: ExifTag) -> (r: String)
        requires
            fields.texts@.len() == 17,
        ensures
            r@ == match opt_view(fields.texts@[tag_index(tag)]) {
                Some(t) => t,
                None => Seq::<char>::empty(),
            },
    {
        crate::image_exif::ImageExif::get_field_value(fields, tag)
    }
}

fn unquoted(fields: &ExifFields, tag: ExifTag) -> (r: Vec<char>)
    requires
        fields.texts@.len() == 17,
    ensures
        r@ == remove_chars(
            match opt_view(fields.texts@[tag_index(tag)]) {
                Some(t) => t,
                None => Seq::<char>::empty(),
            },
            seq!['"'],
        ),
{
    let v = str_chars(ImageExif::get_field_value(fields, tag).as_str());
    let q = vec!['"'];
    assert(q@ =~= seq!['"']);
    remove_chars_exec(v.as_slice(), q.as_slice())
}

/// `a`, a space, and `b`.
fn join_space(a: &[char], b: &[char]) -> (r: String)
    ensures
        r@ == a@ + seq![' '] + b@,
{
    let mut v: Vec<char> = Vec::new();
    append_chars(&mut v, a);
    v.push(' ');
    append_chars(&mut v, b);
    string_from_chars(v.as_slice())
}

/// The shooting parameters, with units, in the bytes `data` of an image
/// file, as `get_image_exif` reads them from the file at a path.
pub fn get_image_exif(data: &[u8]) -> (r: Result<ImageExif, ExifError>)
    ensures
        r is Err <==> !crate::image_exif::exif_readable(data@),
        r matches Ok(x) ==> {
            &&& x.make@ == unquoted_field(data@, ExifTag::Make) + seq![' '] + unquoted_field(
                data@,
                ExifTag::Model,
            )
            &&& x.lens@ == unquoted_field(data@, ExifTag::LensMake) + seq![' '] + unquoted_field(
                data@,
                ExifTag::LensModel,
            )
            &&& x.xp_prog == exposure_program_letter(data@)
            &&& x.focal_len@ == field_value(data@, ExifTag::FocalLength, true)
            &&& x.aperture@ == field_value(data@, ExifTag::FNumber, true)
            &&& x.shutter@ == field_value(data@, ExifTag::ExposureTime, true)
            &&& x.iso@ == field_value(data@, ExifTag::PhotographicSensitivity, true)
            &&& x.shot_time@ == field_value(data@, ExifTag::DateTimeOriginal, true)
        },
{
    let fields = match ExifFields::read(data, true) {
        None => return Err(ExifError::Unreadable),
        Some(f) => f,
    };
    proof {
        assert forall|t: ExifTag| #![trigger tag_index(t)]
            opt_view(fields.texts@[tag_index(t)]) == crate::image_exif::field_text(data@, t, true) by {
            assert(0 <= tag_index(t) < 17);
            assert(crate::image_exif::all_tags()[tag_index(t)] == t);
        }
    }
    let make = unquoted(&fields, ExifTag::Make);
    let model = unquoted(&fields, ExifTag::Model);
    let exposure_time = ImageExif::get_field_value(&fields, ExifTag::ExposureTime);
    let program = str_chars(ImageExif::get_field_value(&fields, ExifTag::ExposureProgram).as_str());
    let letter = if program.len() > 0 {
        to_ascii_uppercase(program[0])
    } else {
        ' '
    };
    let f_number = ImageExif::get_field_value(&fields, ExifTag::FNumber);
    let lens_make = unquoted(&fields, ExifTag::LensMake);
    let lens_model = unquoted(&fields, ExifTag::LensModel);
    let date_time = ImageExif::get_field_value(&fields, ExifTag::DateTimeOriginal);
    let focal_length = ImageExif::get_field_value(&fields, ExifTag::FocalLength);
    let iso = ImageExif::get_field_value(&fields, ExifTag::PhotographicSensitivity);
    Ok(
        ImageExif::new(
            join_space(make.as_slice(), model.as_slice()),
            join_space(lens_make.as_slice(), lens_model.as_slice()),
            letter,
            focal_length,
            f_number,
            exposure_time,
            iso,
            date_time,
        ),
    )
}

/// The preview height in pixels for a preview level: 512, 256, 128, 64 and
/// 32 for levels 1 to 5; none for other levels (the image keeps its size).
pub open spec fn level_pixels(level: u8) -> Option<u32> {
    if level == 1 {
        Some(512)
    } else if level == 2 {
        Some(256)
    } else if level == 3 {
        Some(128)
    } else if level == 4 {
        Some(64)
    } else if level == 5 {
        Some(32)
    } else {
        None
    }
}

/// The preview height in pixels for a preview level (see `level_pixels`).
pub fn preview_level_pixels(level: u8) -> (r: Option<u32>)
    ensures
        r == level_pixels(level),
{
    if level == 1 {
        Some(512)
    } else if level == 2 {
        Some(256)
    } else if level == 3 {
        Some(128)
    } else if level == 4 {
        Some(64)
    } else if level == 5 {
        Some(32)
    } else {
        None
    }
}

/// What to do when a preview is not cached yet.
#[derive(Clone, Copy, Debug, PartialEq, Eq)]
pub enum PreviewAction {
    /// Answer with no bytes (videos, and files that are neither videos nor
    /// photos).
    Empty,
    /// Open the photo, scale it to `height` pixels if there is a height,
    /// encode it as WebP at quality `quality` and store it in the cache.
    Encode { height: Option<u32>, quality: u8 },
}

/// Where a preview is cached and what to do when it is not.
#[derive(Clone, Debug)]
pub struct MediaPreviewPlan {
    /// `cache/tb_<level>_<size>_<lower-case file name>.webp`.
    pub cache_path: String,
    /// What to do when the cache file does not exist.
    pub action: PreviewAction,
}

/// Whether `s` ends with `suffix`.
pub open spec fn ends_with(s: Seq<char>, suffix: Seq<char>) -> bool {
    occurs_at(s, suffix, s.len() - suffix.len())
}

fn ends_with_exec(s: &[char], suffix: &[char]) -> (r: bool)
    ensures
        r == ends_with(s@, suffix@),
{
    if suffix.len() > s.len() {
        false
    } else {
        crate::text::starts_with_at(s, suffix, s.len() - suffix.len())
    }
}

/// What `get_media_preview` does for a file whose lower-case name is
/// `lower` when the preview is not cached: nothing for videos and for files
/// that are neither videos nor JPEG or PNG photos; for photos, encode the
/// photo scaled to the level's height at quality 80, or, for a level with
/// no height, at full size and quality 40.
pub open spec fn preview_action_for(lower: Seq<char>, level: u8) -> PreviewAction {
    if ends_with(lower, seq!['.', 'm', 'p', '4']) || ends_with(lower, seq!['.', 'm', 'o', 'v']) {
        PreviewAction::Empty
    } else if ends_with(lower, seq!['.', 'j', 'p', 'g']) || ends_with(
        lower,
        seq!['.', 'p', 'n', 'g'],
    ) {
        PreviewAction::Encode {
            height: level_pixels(level),
            quality: if level_pixels(level) is Some {
                80
            } else {
                40
            },
        }
    } else {
        PreviewAction::Empty
    }
}

/// Where the preview of level `level` of a file of `file_size` bytes named
/// `file_name` is cached, and what to do when it is not: the decisions of
/// `get_media_preview`, which reads and writes the files.
pub fn media_preview_plan(level: u8, file_size: u64, file_name: &str) -> (r: MediaPreviewPlan)
    ensures
        r.cache_path@ == seq!['c', 'a', 'c', 'h', 'e', '/', 't', 'b', '_'] + decimal(level as nat)
            + seq!['_'] + decimal(file_size as nat) + seq!['_'] + unicode_lowercase(file_name@)
            + seq!['.', 'w', 'e', 'b', 'p'],
        r.action == preview_action_for(unicode_lowercase(file_name@), level),
{
    let lower = to_lowercase(file_name);
    let lc = str_chars(lower.as_str());
    let mut path: Vec<char> = vec!['c', 'a', 'c', 'h', 'e', '/', 't', 'b', '_'];
    push_digits(&mut path, level as u64, 10);
    path.push('_');
    push_digits(&mut path, file_size, 10);
    path.push('_');
    append_chars(&mut path, lc.as_slice());
    let webp = vec!['.', 'w', 'e', 'b', 'p'];
    append_chars(&mut path, webp.as_slice());
    let mp4 = vec!['.', 'm', 'p', '4'];
    let mov = vec!['.', 'm', 'o', 'v'];
    let jpg = vec!['.', 'j', 'p', 'g'];
    let png = vec!['.', 'p', 'n', 'g'];
    assert(mp4@ =~= seq!['.', 'm', 'p', '4']);
    assert(mov@ =~= seq!['.', 'm', 'o', 'v']);
    assert(jpg@ =~= seq!['.', 'j', 'p', 'g']);
    assert(png@ =~= seq!['.', 'p', 'n', 'g']);
    let action = if ends_with_exec(lc.as_slice(), mp4.as_slice()) || ends_with_exec(
        lc.as_slice(),
        mov.as_slice(),
    ) {
        PreviewAction::Empty
    } else if ends_with_exec(lc.as_slice(), jpg.as_slice()) || ends_with_exec(
        lc.as_slice(),
        png.as_slice(),
    ) {
        let height = preview_level_pixels(level);
        let quality: u8 = if height.is_some() {
            80
        } else {
            40
        };
        PreviewAction::Encode { height, quality }
    } else {
        PreviewAction::Empty
    };
    assert(path@ =~= seq!['c', 'a', 'c', 'h', 'e', '/', 't', 'b', '_'] + decimal(level as nat)
        + seq!['_'] + decimal(file_size as nat) + seq!['_'] + unicode_lowercase(file_name@) + seq![
        '.',
        'w',
        'e',
        'b',
        'p',
    ]);
    MediaPreviewPlan { cache_path: string_from_chars(path.as_slice()), action }
}

} // verus!
