//! A photo or video on disk, what kind of media a path names, and where the
//! caches derived from a media file live.
use vstd::prelude::*;
use crate::image_exif::ImageExif;
use crate::text::{
    append_chars, ascii_lower_seq, chars_eq, decimal, last_index_of, last_index_of_exec,
    push_digits, str_chars, string_from_chars, to_ascii_lowercase, to_lowercase,
    unicode_lowercase,
};
use crate::util::{
    date_str_to_timestamp, date_time_format, filename_to_timestamp, naive_date_time_seconds,
    seconds_to_timestamp, spec_filename_to_timestamp,
};
use crate::text::{parse_unsigned, parse_unsigned_chars};

verus! {

/// The final component of `path` as `std::path::Path::file_name` reads it,
/// or `None` where that returns `None` (the path ends in `..`, or is empty
/// or a root).
pub uninterp spec fn path_file_name(path: Seq<char>) -> Option<Seq<char>>;

/// Calls `std::path::Path::file_name`; the contract claims only that the
/// result is what that function computes for `path`.
#[verifier::external_body]
pub(crate) fn file_name_of(path: &str) -> (r: Option<String>)
    ensures
        match r {
            Some(n) => path_file_name(path@) == Some(n@),
            None => path_file_name(path@) is None,
        },
{
    std::path::Path::new(path).file_name().and_then(|n| n.to_str()).map(|n| n.to_string())
}

/// The extension of a file name as `Path::extension` documents it: the part
/// after the final `.`; none if there is no `.`, or if the only `.` begins
/// the name, or if the name is `..`.
pub open spec fn name_extension(name: Seq<char>) -> Option<Seq<char>> {
    if name == seq!['.', '.'] {
        None
    } else {
        match last_index_of(name, '.') {
            None => None,
            Some(k) => if k == 0 {
                None
            } else {
                Some(name.skip(k + 1))
            },
        }
    }
}

/// The extension of a path (see `name_extension`).
pub open spec fn path_extension(path: Seq<char>) -> Option<Seq<char>> {
    match path_file_name(path) {
        None => None,
        Some(name) => name_extension(name),
    }
}

/// The extension of `path`, in ASCII lower case.
pub open spec fn lower_extension(path: Seq<char>) -> Option<Seq<char>> {
    match path_extension(path) {
        None => None,
        Some(e) => Some(ascii_lower_seq(e)),
    }
}

/// The extension of `path` in ASCII lower case, if it has one.
pub fn extension_lowercase(path: &str) -> (r: Option<Vec<char>>)
    ensures
        match r {
            Some(e) => lower_extension(path@) == Some(e@),
            None => lower_extension(path@) is None,
        },
{
    let name = match file_name_of(path) {
        None => return None,
        Some(n) => n,
    };
    let chars = str_chars(name.as_str());
    if chars.len() == 2 && chars[0] == '.' && chars[1] == '.' {
        assert(chars@ =~= seq!['.', '.']);
        return None;
    }
    assert(chars@ != seq!['.', '.']) by {
        if chars@ == seq!['.', '.'] {
            assert(chars@.len() == 2 && chars@[0] == '.' && chars@[1] == '.');
        }
    }
    match last_index_of_exec(chars.as_slice(), '.') {
        None => None,
        Some(k) => {
            if k == 0 {
                None
            } else {
                proof {
                    lemma_last_index_in_range(chars@, '.');
                }
                let mut ext: Vec<char> = Vec::new();
                let mut i: usize = k + 1;
                while i < chars.len()
                    invariant
                        k < chars.len(),
                        k + 1 <= i <= chars.len(),
                        ext@ =~= chars@.subrange(k + 1, i as int),
                    decreases chars.len() - i,
                {
                    ext.push(chars[i]);
                    i = i + 1;
                }
                assert(ext@ =~= chars@.skip(k + 1));
                Some(to_ascii_lowercase(ext.as_slice()))
            }
        },
    }
}

proof fn lemma_last_index_in_range(s: Seq<char>, c: char)
    ensures
        last_index_of(s, c) matches Some(k) ==> 0 <= k < s.len() && s[k] == c,
    decreases s.len(),
{
    if s.len() > 0 && s.last() != c {
        lemma_last_index_in_range(s.drop_last(), c);
    }
}

/// Whether the lower-case extension of `path` is one of `extensions`.
pub open spec fn spec_matches_extension(path: Seq<char>, extensions: Seq<Seq<char>>) -> bool {
    match lower_extension(path) {
        None => false,
        Some(e) => extensions.contains(e),
    }
}

/// Whether the extension of `path`, in lower case, is one of `extensions`.
pub fn matches_extension(path: &str, extensions: &[&str]) -> (r: bool)
    ensures
        r == spec_matches_extension(path@, extensions@.map_values(|e: &str| e@)),
{
    let ghost exts = extensions@.map_values(|e: &str| e@);
    match extension_lowercase(path) {
        None => false,
        Some(e) => {
            let mut i: usize = 0;
            while i < extensions.len()
                invariant
                    i <= extensions.len(),
                    exts == extensions@.map_values(|e: &str| e@),
                    lower_extension(path@) == Some(e@),
                    forall|j: int| 0 <= j < i ==> exts[j] != e@,
                decreases extensions.len() - i,
            {
                let cand = str_chars(extensions[i]);
                if chars_eq(cand.as_slice(), e.as_slice()) {
                    assert(exts[i as int] == e@);
                    return true;
                }
                i = i + 1;
            }
            assert(!exts.contains(e@));
            false
        },
    }
}

/// Whether `path` names a video (extension `mp4`, in any case).
pub open spec fn spec_is_video(path: Seq<char>) -> bool {
    lower_extension(path) == Some(seq!['m', 'p', '4'])
}

/// Whether `path` names a HEIF image (extension `heif` or `heic`).
pub open spec fn spec_is_heif_image(path: Seq<char>) -> bool {
    lower_extension(path) == Some(seq!['h', 'e', 'i', 'f']) || lower_extension(path) == Some(
        seq!['h', 'e', 'i', 'c'],
    )
}

/// Whether `path` names a JPEG image (extension `jpg`).
pub open spec fn spec_is_jpg_image(path: Seq<char>) -> bool {
    lower_extension(path) == Some(seq!['j', 'p', 'g'])
}

/// Whether `path` names an image: `png`, `jpg`, or HEIF.
pub open spec fn spec_is_image(path: Seq<char>) -> bool {
    lower_extension(path) == Some(seq!['p', 'n', 'g']) || spec_is_jpg_image(path)
        || spec_is_heif_image(path)
}

proof fn lemma_contains_two(a: Seq<char>, b: Seq<char>, e: Seq<char>)
    ensures
        seq![a, b].contains(e) == (e == a || e == b),
{
    if e == a {
        assert(seq![a, b][0] == e);
    }
    if e == b {
        assert(seq![a, b][1] == e);
    }
}

/// Whether `path` names a video.
pub fn is_video(path: &str) -> (r: bool)
    ensures
        r == spec_is_video(path@),
{
    let exts: [&str; 1] = ["mp4"];
    proof {
        reveal_strlit("mp4");
    }
    let sl = exts.as_slice();
    assert(sl@.len() == 1);
    assert(sl@[0] == "mp4");
    let r = matches_extension(path, sl);
    proof {
        let v = sl@.map_values(|e: &str| e@);
        assert(v[0] == seq!['m', 'p', '4']);
        assert(v =~= seq![seq!['m', 'p', '4']]);
    }
    r
}

/// Whether `path` names a HEIF image.
pub fn is_heif_image(path: &str) -> (r: bool)
    ensures
        r == spec_is_heif_image(path@),
{
    let exts: [&str; 2] = ["heif", "heic"];
    proof {
        reveal_strlit("heif");
        reveal_strlit("heic");
    }
    let sl = exts.as_slice();
    assert(sl@.len() == 2);
    assert(sl@[0] == "heif" && sl@[1] == "heic");
    let r = matches_extension(path, sl);
    proof {
        let v = sl@.map_values(|e: &str| e@);
        assert(v[0] == seq!['h', 'e', 'i', 'f']);
        assert(v[1] == seq!['h', 'e', 'i', 'c']);
        assert(v =~= seq![seq!['h', 'e', 'i', 'f'], seq!['h', 'e', 'i', 'c']]);
        if let Some(e) = lower_extension(path@) {
            lemma_contains_two(seq!['h', 'e', 'i', 'f'], seq!['h', 'e', 'i', 'c'], e);
        }
    }
    r
}

/// Whether `path` names a JPEG image.
pub fn is_jpg_image(path: &str) -> (r: bool)
    ensures
        r == spec_is_jpg_image(path@),
{
    let exts: [&str; 1] = ["jpg"];
    proof {
        reveal_strlit("jpg");
    }
    let sl = exts.as_slice();
    assert(sl@.len() == 1);
    assert(sl@[0] == "jpg");
    let r = matches_extension(path, sl);
    proof {
        let v = sl@.map_values(|e: &str| e@);
        assert(v[0] == seq!['j', 'p', 'g']);
        assert(v =~= seq![seq!['j', 'p', 'g']]);
    }
    r
}

/// Whether `path` names an image: a PNG, a JPEG or a HEIF image.
pub fn is_image(path: &str) -> (r: bool)
    ensures
        r == spec_is_image(path@),
{
    let exts: [&str; 2] = ["png", "jpg"];
    proof {
        reveal_strlit("png");
        reveal_strlit("jpg");
    }
    let sl = exts.as_slice();
    assert(sl@.len() == 2);
    assert(sl@[0] == "png" && sl@[1] == "jpg");
    let m = matches_extension(path, sl);
    proof {
        let v = sl@.map_values(|e: &str| e@);
        assert(v[0] == seq!['p', 'n', 'g']);
        assert(v[1] == seq!['j', 'p', 'g']);
        assert(v =~= seq![seq!['p', 'n', 'g'], seq!['j', 'p', 'g']]);
        if let Some(e) = lower_extension(path@) {
            lemma_contains_two(seq!['p', 'n', 'g'], seq!['j', 'p', 'g'], e);
        }
    }
    m || is_heif_image(path)
}

/// A photo or video found in an album.
#[derive(Clone, Debug)]
pub struct MediaItem {
    /// The file name.
    pub name: String,
    /// Where the file lies.
    pub path: String,
    /// Seconds since 1970: when the photo was taken if that is known, else
    /// when the file was created.
    pub time: u64,
    /// The file's size in bytes.
    pub size: u64,
    /// The photo's shooting parameters, if they were read.
    pub exif: Option<ImageExif>,
    /// The video's length in seconds, if it was read.
    pub duration: Option<u16>,
    /// The password of the album that holds the item, if it has one.
    pub pwd: Option<String>,
}

/// `cache/` followed by `rest`, as `Path::new("cache").join(rest)` writes it
/// on a system whose path separator is `/`.
pub open spec fn cache_path(rest: Seq<char>) -> Seq<char> {
    seq!['c', 'a', 'c', 'h', 'e', '/'] + rest
}

/// The preview cache file of a media item: `cache/tb_<2 for a thumbnail, 0
/// for the large preview>_<size>_<lower-case name>.webp`.
pub open spec fn preview_path(size: u64, name: Seq<char>, thumbnail: bool) -> Seq<char> {
    cache_path(
        seq!['t', 'b', '_', if thumbnail { '2' } else { '0' }, '_'] + decimal(size as nat)
            + seq!['_'] + unicode_lowercase(name) + seq!['.', 'w', 'e', 'b', 'p'],
    )
}

/// The Exif cache file of a media item:
/// `cache/exif/exif_<size>_<lower-case name>.json`.
pub open spec fn exif_cache_path(size: u64, name: Seq<char>) -> Seq<char> {
    cache_path(
        seq!['e', 'x', 'i', 'f', '/', 'e', 'x', 'i', 'f', '_'] + decimal(size as nat) + seq!['_']
            + unicode_lowercase(name) + seq!['.', 'j', 's', 'o', 'n'],
    )
}

/// The video-length cache file of a media item:
/// `cache/video/duration_<size>_<lower-case name>.txt`.
pub open spec fn duration_cache_path(size: u64, name: Seq<char>) -> Seq<char> {
    cache_path(
        seq!['v', 'i', 'd', 'e', 'o', '/', 'd', 'u', 'r', 'a', 't', 'i', 'o', 'n', '_']
            + decimal(size as nat) + seq!['_'] + unicode_lowercase(name) + seq!['.', 't', 'x', 't'],
    )
}

/// `prefix`, the size, `_`, the lower-case name and `suffix`, after `cache/`.
fn cache_file_path(prefix: &[char], size: u64, name: &str, suffix: &[char]) -> (r: String)
    ensures
        r@ == cache_path(prefix@ + decimal(size as nat) + seq!['_'] + unicode_lowercase(name@)
            + suffix@),
{
    let mut out: Vec<char> = vec!['c', 'a', 'c', 'h', 'e', '/'];
    append_chars(&mut out, prefix);
    push_digits(&mut out, size, 10);
    out.push('_');
    let lower = to_lowercase(name);
    let lower_chars = str_chars(lower.as_str());
    append_chars(&mut out, lower_chars.as_slice());
    append_chars(&mut out, suffix);
    assert(out@ =~= cache_path(prefix@ + decimal(size as nat) + seq!['_'] + unicode_lowercase(
        name@,
    ) + suffix@));
    string_from_chars(out.as_slice())
}

impl MediaItem {
    /// A media item with no Exif data, length or password yet.
    pub fn new(path: String, name: String, time: u64, size: u64) -> (r: Self)
        ensures
            r.path == path,
            r.name == name,
            r.time == time,
            r.size == size,
            r.exif is None,
            r.duration is None,
            r.pwd is None,
    {
        MediaItem { path, name, time, size, exif: None, duration: None, pwd: None }
    }

    /// The extension of the item's path in ASCII lower case; empty where the
    /// path has none.
    pub fn get_extension(&self) -> (r: String)
        ensures
            r@ == match lower_extension(self.path@) {
                Some(e) => e,
                None => Seq::<char>::empty(),
            },
    {
        match extension_lowercase(self.path.as_str()) {
            Some(e) => string_from_chars(e.as_slice()),
            None => {
                let v: Vec<char> = Vec::new();
                string_from_chars(v.as_slice())
            },
        }
    }

    /// Where the item's thumbnail (`thumbnail`) or large preview is cached.
    pub fn get_preview_path(&self, thumbnail: bool) -> (r: String)
        ensures
            r@ == preview_path(self.size, self.name@, thumbnail),
    {
        let prefix = vec!['t', 'b', '_', if thumbnail { '2' } else { '0' }, '_'];
        let suffix = vec!['.', 'w', 'e', 'b', 'p'];
        let r = cache_file_path(prefix.as_slice(), self.size, self.name.as_str(), suffix.as_slice());
        assert(r@ =~= preview_path(self.size, self.name@, thumbnail));
        r
    }

    /// Where the item's Exif data is cached.
    pub fn get_exif_cache_path(&self) -> (r: String)
        ensures
            r@ == exif_cache_path(self.size, self.name@),
    {
        let prefix = vec!['e', 'x', 'i', 'f', '/', 'e', 'x', 'i', 'f', '_'];
        let suffix = vec!['.', 'j', 's', 'o', 'n'];
        let r = cache_file_path(prefix.as_slice(), self.size, self.name.as_str(), suffix.as_slice());
        assert(r@ =~= exif_cache_path(self.size, self.name@));
        r
    }

    /// Where the item's video length is cached.
    pub fn get_video_duration_cache_path(&self) -> (r: String)
        ensures
            r@ == duration_cache_path(self.size, self.name@),
    {
        let prefix = vec![
            'v', 'i', 'd', 'e', 'o', '/', 'd', 'u', 'r', 'a', 't', 'i', 'o', 'n', '_',
        ];
        let suffix = vec!['.', 't', 'x', 't'];
        let r = cache_file_path(prefix.as_slice(), self.size, self.name.as_str(), suffix.as_slice());
        assert(r@ =~= duration_cache_path(self.size, self.name@));
        r
    }
}

/// The time a media item gets from its Exif shooting time or its file
/// name: with Exif data, the shooting time if it reads as a date, else the
/// time in the file name if there is one, else `time`; without Exif data,
/// `time`.
pub open spec fn media_time(time: u64, shot_time: Option<Seq<char>>, name: Seq<char>) -> u64 {
    match shot_time {
        None => time,
        Some(s) => match seconds_to_timestamp(naive_date_time_seconds(s, date_time_format())) {
            Ok(t) => t,
            Err(_) => match spec_filename_to_timestamp(name) {
                Ok(t) => t,
                Err(_) => time,
            },
        },
    }
}

/// The Exif shooting time of a media item, if it has Exif data.
pub open spec fn shot_time_of(exif: Option<ImageExif>) -> Option<Seq<char>> {
    match exif {
        None => None,
        Some(e) => Some(e.shot_time@),
    }
}

/// Why a cached video length could not be used.
#[derive(Clone, Copy, Debug, PartialEq, Eq)]
pub enum DurationCacheError {
    /// The cached text is not a whole number of seconds below 65536.
    NotANumber,
}

impl MediaItem {
    /// Takes the item's time from its Exif shooting time or its file name
    /// where one of them holds a date (see `media_time`).
    pub fn update_media_time(&mut self)
        ensures
            final(self).time == media_time(old(self).time, shot_time_of(old(self).exif), old(
                self,
            ).name@),
            final(self).name == old(self).name,
            final(self).path == old(self).path,
            final(self).size == old(self).size,
            final(self).exif == old(self).exif,
            final(self).duration == old(self).duration,
            final(self).pwd == old(self).pwd,
    {
        let shot = match &self.exif {
            Some(exif) => Some(exif.shot_time.as_str()),
            None => None,
        };
        self.time = resolve_media_time(self.time, shot, self.name.as_str());
    }

    /// Takes the item's video length from the text of its length cache,
    /// which must be a whole number of seconds as `str::parse::<u16>` reads
    /// it; otherwise the item is left as it was.
    pub fn apply_video_duration_cache(&mut self, cached: &str) -> (r: Result<(), DurationCacheError>)
        ensures
            match parse_unsigned(cached@, 65535) {
                Some(v) => r is Ok && final(self).duration == Some(v as u16),
                None => r == Err::<(), DurationCacheError>(DurationCacheError::NotANumber)
                    && final(self).duration == old(self).duration,
            },
            final(self).name == old(self).name,
            final(self).path == old(self).path,
            final(self).time == old(self).time,
            final(self).size == old(self).size,
            final(self).exif == old(self).exif,
            final(self).pwd == old(self).pwd,
    {
        let chars = str_chars(cached);
        match parse_unsigned_chars(chars.as_slice(), 65535) {
            Some(v) => {
                self.duration = Some(v as u16);
                Ok(())
            },
            None => Err(DurationCacheError::NotANumber),
        }
    }
}

/// The view of an optional string slice.
pub open spec fn opt_str_view(o: Option<&str>) -> Option<Seq<char>> {
    match o {
        Some(s) => Some(s@),
        None => None,
    }
}

/// The time of a media item whose file time is `time`, whose Exif shooting
/// time, where it has Exif data, is `shot_time`, and whose file name is
/// `name` (see `media_time`).
pub fn resolve_media_time(time: u64, shot_time: Option<&str>, name: &str) -> (r: u64)
    ensures
        r == media_time(time, opt_str_view(shot_time), name@),
{
    match shot_time {
        None => time,
        Some(shot) => {
            if let Ok(t) = date_str_to_timestamp(shot) {
                t
            } else if let Ok(t) = filename_to_timestamp(name) {
                t
            } else {
                time
            }
        },
    }
}

/// What an album scan does with a file.
#[derive(Clone, Copy, Debug, PartialEq, Eq)]
pub enum ScannedFile {
    /// A JPEG photo, whose Exif data is cached and read.
    Photo,
    /// A video, whose length is cached and read.
    Video,
}

/// What an album scan does with the file `name` at `path`: files whose
/// name begins with `.` and files that are neither JPEG photos nor videos
/// are skipped.
pub open spec fn spec_scanned_file(name: Seq<char>, path: Seq<char>) -> Option<ScannedFile> {
    if name.len() > 0 && name[0] == '.' {
        None
    } else if spec_is_jpg_image(path) {
        Some(ScannedFile::Photo)
    } else if spec_is_video(path) {
        Some(ScannedFile::Video)
    } else {
        None
    }
}

/// What an album scan does with the file `name` at `path` (see
/// `spec_scanned_file`).
pub fn scanned_file(name: &str, path: &str) -> (r: Option<ScannedFile>)
    ensures
        r == spec_scanned_file(name@, path@),
{
    let n = str_chars(name);
    if n.len() > 0 && n[0] == '.' {
        return None;
    }
    if is_jpg_image(path) {
        Some(ScannedFile::Photo)
    } else if is_video(path) {
        Some(ScannedFile::Video)
    } else {
        None
    }
}

/// Where the image of a preview comes from.
#[derive(Clone, Copy, Debug, PartialEq, Eq)]
pub enum PreviewSource {
    /// The first frame of the video.
    VideoFrame,
    /// The HEIF image, decoded with libheif.
    HeifImage,
    /// The image, opened with the `image` crate.
    Image,
}

/// Where the image of a preview of the file at `path` comes from; none for
/// files that are neither photos nor videos.
pub open spec fn spec_preview_source(path: Seq<char>) -> Option<PreviewSource> {
    if spec_is_video(path) {
        Some(PreviewSource::VideoFrame)
    } else if spec_is_heif_image(path) {
        Some(PreviewSource::HeifImage)
    } else if spec_is_image(path) {
        Some(PreviewSource::Image)
    } else {
        None
    }
}

/// Where the image of a preview of the file at `path` comes from (see
/// `spec_preview_source`).
pub fn preview_source(path: &str) -> (r: Option<PreviewSource>)
    ensures
        r == spec_preview_source(path@),
{
    if is_video(path) {
        Some(PreviewSource::VideoFrame)
    } else if is_heif_image(path) {
        Some(PreviewSource::HeifImage)
    } else if is_image(path) {
        Some(PreviewSource::Image)
    } else {
        None
    }
}

/// How a preview image is encoded as WebP: scaled to `height` pixels (the
/// width passed to the scaler is the image's own) where there is a height,
/// at WebP quality `quality`.
#[derive(Clone, Copy, Debug, PartialEq, Eq)]
pub struct WebpSettings {
    pub height: Option<u32>,
    pub quality: u8,
}

/// The WebP encoding of a thumbnail (256 pixels high, quality 80) or of a
/// large preview (full size, quality 40).
pub fn webp_settings(thumbnail: bool) -> (r: WebpSettings)
    ensures
        thumbnail ==> r == (WebpSettings { height: Some(256), quality: 80 }),
        !thumbnail ==> r == (WebpSettings { height: None, quality: 40 }),
{
    if thumbnail {
        WebpSettings { height: Some(256), quality: 80 }
    } else {
        WebpSettings { height: None, quality: 40 }
    }
}

} // verus!
