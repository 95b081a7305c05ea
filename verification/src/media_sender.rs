//! How a media file or preview is sent: byte ranges, content types, cache
//! validators and the decisions of a file response.
use vstd::prelude::*;
use crate::media_item::{
    is_heif_image, is_jpg_image, is_video, spec_is_heif_image, spec_is_jpg_image, spec_is_video,
    MediaItem,
};
use crate::text::{
    chars_seqs, hex, parse_unsigned, parse_unsigned_chars, push_digits, split_char,
    split_on, starts_with_at, str_chars, string_from_chars, decimal, occurs_at,
};
use crate::util::{convert_http_date_to_u64, rfc2822_seconds, TimeError};

verus! {

/// A requested byte range: from `start` to `end` (inclusive), or to the end
/// of the file where there is no `end`.
#[derive(Clone, Copy, Debug, PartialEq, Eq)]
pub struct Range {
    pub start: u64,
    pub end: Option<u64>,
}

/// `bytes=` as characters.
pub open spec fn bytes_prefix() -> Seq<char> {
    seq!['b', 'y', 't', 'e', 's', '=']
}

/// The range that a `Range` header value asks for: `bytes=`, a start, `-`
/// and an optional end, each number as `str::parse::<u64>` reads it; `None`
/// for any other text.
pub open spec fn spec_parse_range(range: Seq<char>) -> Option<Range> {
    if !occurs_at(range, bytes_prefix(), 0) {
        None
    } else {
        let parts = split_on(range.skip(6), '-');
        if parts.len() != 2 {
            None
        } else {
            match parse_unsigned(parts[0], u64::MAX as nat) {
                None => None,
                Some(start) => if parts[1].len() == 0 {
                    Some(Range { start: start as u64, end: None })
                } else {
                    match parse_unsigned(parts[1], u64::MAX as nat) {
                        None => None,
                        Some(end) => Some(Range { start: start as u64, end: Some(end as u64) }),
                    }
                },
            }
        }
    }
}

/// The byte range a `Range` header value asks for (see `spec_parse_range`).
pub fn parse_range(range: &str) -> (r: Option<Range>)
    ensures
        r == spec_parse_range(range@),
{
    let chars = str_chars(range);
    let prefix = vec!['b', 'y', 't', 'e', 's', '='];
    assert(prefix@ =~= bytes_prefix());
    if !starts_with_at(chars.as_slice(), prefix.as_slice(), 0) {
        return None;
    }
    let mut rest: Vec<char> = Vec::new();
    let mut i: usize = 6;
    while i < chars.len()
        invariant
            6 <= i <= chars.len(),
            rest@ =~= chars@.subrange(6, i as int),
        decreases chars.len() - i,
    {
        rest.push(chars[i]);
        i = i + 1;
    }
    assert(rest@ =~= chars@.skip(6));
    let parts = split_char(rest.as_slice(), '-');
    assert(chars_seqs(parts@) == split_on(chars@.skip(6), '-'));
    if parts.len() != 2 {
        return None;
    }
    assert(parts@[0]@ == chars_seqs(parts@)[0] && parts@[1]@ == chars_seqs(parts@)[1]);
    let start = match parse_unsigned_chars(parts[0].as_slice(), u64::MAX) {
        None => return None,
        Some(s) => s,
    };
    if parts[1].len() == 0 {
        return Some(Range { start, end: None });
    }
    match parse_unsigned_chars(parts[1].as_slice(), u64::MAX) {
        None => None,
        Some(e) => Some(Range { start, end: Some(e) }),
    }
}

/// The content type a media file is sent with: HEIF images as
/// `image/heic`, JPEG images as `image/jpeg`, videos as `video/mp4`; none
/// for other files, which are not sent.
pub open spec fn spec_content_type(path: Seq<char>) -> Option<Seq<char>> {
    if spec_is_heif_image(path) {
        Some("image/heic"@)
    } else if spec_is_jpg_image(path) {
        Some("image/jpeg"@)
    } else if spec_is_video(path) {
        Some("video/mp4"@)
    } else {
        None
    }
}

/// The content type a media file is sent with (see `spec_content_type`).
pub fn content_type_for(path: &str) -> (r: Option<&'static str>)
    ensures
        match r {
            Some(t) => spec_content_type(path@) == Some(t@),
            None => spec_content_type(path@) is None,
        },
{
    if is_heif_image(path) {
        Some("image/heic")
    } else if is_jpg_image(path) {
        Some("image/jpeg")
    } else if is_video(path) {
        Some("video/mp4")
    } else {
        None
    }
}

/// Calls `etag::EntityTag::weak(tag)` and writes the tag with its `Display`
/// implementation, which writes `W/`, then the tag between double quotes.
/// The tag must be ASCII and at most 62 characters long, which the crate
/// asserts in debug builds and which its buffer holds.
#[verifier::external_body]
fn weak_etag(tag: &str) -> (r: String)
    requires
        tag@.len() <= 62,
        forall|i: int| 0 <= i < tag@.len() ==> (#[trigger] tag@[i]) as u32 <= 127,
    ensures
        r@ == seq!['W', '/', '"'] + tag@ + seq!['"'],
{
    etag::EntityTag::weak(tag).to_string()
}

/// Whether `c` is a lower-case hexadecimal digit.
pub open spec fn is_hex_digit_char(c: char) -> bool {
    (48 <= c as u32 <= 57) || (97 <= c as u32 <= 102)
}

/// Numbers below `16^k` take at most `k` digits.
proof fn lemma_hex_digits(n: nat, k: nat)
    requires
        n < vstd::arithmetic::power::pow(16, k),
    ensures
        crate::text::digits_in_base(n, 16).len() <= if k == 0 { 1 } else { k },
        forall|i: int|
            0 <= i < crate::text::digits_in_base(n, 16).len() ==> is_hex_digit_char(
                #[trigger] crate::text::digits_in_base(n, 16)[i],
            ),
    decreases n,
{
    reveal(vstd::arithmetic::power::pow);
    if n >= 16 {
        assert(k >= 1) by {
            if k == 0 {
                assert(vstd::arithmetic::power::pow(16, 0) == 1);
            }
        }
        assert(n / 16 < vstd::arithmetic::power::pow(16, (k - 1) as nat)) by (nonlinear_arith)
            requires
                n < vstd::arithmetic::power::pow(16, k),
                k >= 1,
                vstd::arithmetic::power::pow(16, k) == 16 * vstd::arithmetic::power::pow(
                    16,
                    (k - 1) as nat,
                ),
        ;
        lemma_hex_digits(n / 16, (k - 1) as nat);
        assert(k - 1 >= 1) by {
            if k == 1 {
                assert(vstd::arithmetic::power::pow(16, 0) == 1);
            }
        }
    }
    let d = n % 16;
    assert(crate::text::digit_char(d) == crate::text::DIGITS@[d as int]);
    assert(is_hex_digit_char(crate::text::DIGITS@[d as int]));
}

/// The entity tag of a media item: weak, made of its size and time in
/// lower-case hexadecimal joined by `-`, e.g. `W/"4d2-5f5e100"`.
pub open spec fn media_etag_text(size: u64, time: u64) -> Seq<char> {
    seq!['W', '/', '"'] + hex(size as nat) + seq!['-'] + hex(time as nat) + seq!['"']
}

/// The entity tag of a media item (see `media_etag_text`).
pub fn media_etag(media: &MediaItem) -> (r: String)
    ensures
        r@ == media_etag_text(media.size, media.time),
{
    let mut tag: Vec<char> = Vec::new();
    push_digits(&mut tag, media.size, 16);
    tag.push('-');
    push_digits(&mut tag, media.time, 16);
    proof {
        vstd::arithmetic::power::lemma_pow_positive(16, 16);
        assert(vstd::arithmetic::power::pow(16, 1) == 16) by {
            reveal_with_fuel(vstd::arithmetic::power::pow, 2);
        }
        assert(vstd::arithmetic::power::pow(16, 2) == 0x100) by {
            vstd::arithmetic::power::lemma_pow_adds(16, 1, 1);
        }
        assert(vstd::arithmetic::power::pow(16, 4) == 0x1_0000) by {
            vstd::arithmetic::power::lemma_pow_adds(16, 2, 2);
        }
        assert(vstd::arithmetic::power::pow(16, 8) == 0x1_0000_0000) by {
            vstd::arithmetic::power::lemma_pow_adds(16, 4, 4);
        }
        assert(vstd::arithmetic::power::pow(16, 16) == 0x1_0000_0000_0000_0000) by {
            vstd::arithmetic::power::lemma_pow_adds(16, 8, 8);
        }
        lemma_hex_digits(media.size as nat, 16);
        lemma_hex_digits(media.time as nat, 16);
        assert forall|i: int| 0 <= i < tag@.len() implies (#[trigger] tag@[i]) as u32 <= 127 by {
            let a = hex(media.size as nat);
            if i < a.len() {
                assert(tag@[i] == a[i]);
            } else if i > a.len() {
                assert(tag@[i] == hex(media.time as nat)[i - a.len() - 1]);
            }
        }
    }
    let text = string_from_chars(tag.as_slice());
    weak_etag(text.as_str())
}

/// `Cache-Control` of a media response: `public, max-age=604800`.
pub open spec fn cache_control_text() -> Seq<char> {
    "public, max-age=604800"@
}

/// The `Cache-Control` header value of a media response.
pub fn cache_control() -> (r: &'static str)
    ensures
        r@ == cache_control_text(),
{
    "public, max-age=604800"
}

/// Whether a media response can be `304 Not Modified`: the request carries
/// an `If-Modified-Since` date no earlier than the item's time. An
/// `If-Modified-Since` value that is not an HTTP date gives its error.
pub fn is_not_modified(media: &MediaItem, if_modified_since: Option<&str>) -> (r: Result<
    bool,
    TimeError,
>)
    ensures
        if_modified_since is None ==> r == Ok::<bool, TimeError>(false),
        if_modified_since matches Some(h) ==> match rfc2822_seconds(h@) {
            None => r == Err::<bool, TimeError>(TimeError::Unparsable),
            Some(t) => r == Ok::<bool, TimeError>(media.time <= t as u64),
        },
{
    match if_modified_since {
        None => Ok(false),
        Some(h) => match convert_http_date_to_u64(h) {
            Ok(t) => Ok(media.time <= t),
            Err(e) => Err(e),
        },
    }
}

/// The last byte a range reaches in a file of `size` bytes: its end, or the
/// file's last byte where it has none or reaches past it.
pub open spec fn range_last_byte(range: Range, size: u64) -> int {
    match range.end {
        Some(e) => if e < size - 1 {
            e as int
        } else {
            size - 1
        },
        None => size - 1,
    }
}

/// The range a request asks for, given its `Range` header value if any.
pub open spec fn requested_range(range_header: Option<&str>) -> Option<Range> {
    match range_header {
        Some(h) => spec_parse_range(h@),
        None => None,
    }
}

/// How a media file is sent.
#[derive(Clone, Debug)]
pub enum FilePlan {
    /// 400 `not implemented file type`: the file is not a photo or video.
    UnsupportedType,
    /// 400 `range start exceeds file size`.
    RangeStartTooLarge,
    /// 206 with the bytes from `start` to `end` of a file of `len` bytes
    /// from `start` on; `content_range` is `bytes <start>-<end>/<size>`.
    Partial {
        start: u64,
        end: u64,
        len: u64,
        content_range: String,
        content_type: &'static str,
    },
    /// The whole file, with the cache headers of `build_response`.
    Whole { content_type: &'static str },
}

/// How a media file of `size` bytes with content type `content_type`
/// (none for an unsupported file) is sent for a request whose `Range`
/// header, if any, is `range_header`. A range must not end before it starts
/// inside the file, where its length cannot be computed.
pub fn plan_file_response(
    content_type: Option<&'static str>,
    size: u64,
    range_header: Option<&str>,
) -> (r: FilePlan)
    requires
        content_type is Some ==> (requested_range(range_header) matches Some(rg) ==> (rg.start
            < size ==> range_last_byte(rg, size) >= rg.start)),
    ensures
        content_type is None ==> r is UnsupportedType,
        content_type matches Some(ct) ==> match requested_range(range_header) {
            None => r matches FilePlan::Whole { content_type: c } && c == ct,
            Some(rg) => if rg.start >= size {
                r is RangeStartTooLarge
            } else {
                r matches FilePlan::Partial { start, end, len, content_range, content_type: c } && c
                    == ct && start == rg.start && end == range_last_byte(rg, size) && len == end
                    - start + 1 && content_range@ == seq!['b', 'y', 't', 'e', 's', ' '] + decimal(
                    start as nat,
                ) + seq!['-'] + decimal(end as nat) + seq!['/'] + decimal(size as nat)
            },
        },
{
    let range = match range_header {
        Some(h) => parse_range(h),
        None => None,
    };
    let ct = match content_type {
        None => return FilePlan::UnsupportedType,
        Some(c) => c,
    };
    match range {
        None => FilePlan::Whole { content_type: ct },
        Some(rg) => {
            if rg.start >= size {
                return FilePlan::RangeStartTooLarge;
            }
            let last = size - 1;
            let end = match rg.end {
                Some(e) => if e < last {
                    e
                } else {
                    last
                },
                None => last,
            };
            let len = end - rg.start + 1;
            let mut text: Vec<char> = vec!['b', 'y', 't', 'e', 's', ' '];
            push_digits(&mut text, rg.start, 10);
            text.push('-');
            push_digits(&mut text, end, 10);
            text.push('/');
            push_digits(&mut text, size, 10);
            FilePlan::Partial {
                start: rg.start,
                end,
                len,
                content_range: string_from_chars(text.as_slice()),
                content_type: ct,
            }
        },
    }
}

} // verus!
