//! Size formatting and time-stamp conversions.
use vstd::prelude::*;
use chrono::TimeZone;
use crate::text::{decimal, digit_char, find_chars, find_from, push_digits, str_chars, string_from_chars, DIGITS};
use vstd::arithmetic::power2::{pow2, lemma_pow2_adds, lemma_pow2_unfold, lemma_pow2_strictly_increases, lemma2_to64, lemma2_to64_rest};

verus! {

/// `x` rounded to a multiple of `2^e`, ties to the even multiple.
pub open spec fn round_to_multiple(x: nat, e: nat) -> nat {
    let p = pow2(e);
    let q = x / p;
    let r = x % p;
    if 2 * r > p || (2 * r == p && q % 2 == 1) {
        (q + 1) * p
    } else {
        q * p
    }
}

/// Rounds `x` to 53 significant bits, starting the search for the bit
/// length at `e` dropped bits.
pub open spec fn f64_round_from(x: nat, e: nat) -> nat
    decreases 64 - e,
{
    if e >= 64 || x < pow2(53 + e) {
        round_to_multiple(x, e)
    } else {
        f64_round_from(x, e + 1)
    }
}

/// The value of `x as f64` for an unsigned integer `x`: the nearest number
/// with 53 significant bits, ties to even.
pub open spec fn f64_value(x: nat) -> nat {
    f64_round_from(x, 0)
}

/// The index of the unit that `human_readable_size` picks for a size of
/// `x` bytes, counting divisions by 1024 from `i` on while at least 1024
/// is left and a larger unit exists.
pub open spec fn unit_index_from(x: nat, i: nat) -> nat
    decreases 8 - i,
{
    if i < 8 && x >= pow2(10 * (i + 1)) {
        unit_index_from(x, i + 1)
    } else {
        i
    }
}

/// The name of the `i`-th size unit.
pub open spec fn unit_name(i: nat) -> Seq<char> {
    if i == 0 {
        seq!['B']
    } else if i == 1 {
        seq!['K', 'B']
    } else if i == 2 {
        seq!['M', 'B']
    } else if i == 3 {
        seq!['G', 'B']
    } else if i == 4 {
        seq!['T', 'B']
    } else if i == 5 {
        seq!['P', 'B']
    } else if i == 6 {
        seq!['E', 'B']
    } else if i == 7 {
        seq!['Z', 'B']
    } else {
        seq!['Y', 'B']
    }
}

/// `num / den` rounded to an integer, ties to even.
pub open spec fn div_round_half_even(num: nat, den: nat) -> nat {
    let q = num / den;
    let r = num % den;
    if 2 * r > den || (2 * r == den && q % 2 == 1) {
        q + 1
    } else {
        q
    }
}

/// The text of `human_readable_size(bytes)`: the size in the largest unit
/// (up to `YB`) in which it is at least one, with two decimals rounded as
/// `{:.2}` rounds the floating-point value, then a space and the unit.
pub open spec fn human_size_text(bytes: nat) -> Seq<char> {
    let x = f64_value(bytes);
    let i = unit_index_from(x, 0);
    let n = div_round_half_even(x * 100, pow2(10 * i));
    decimal(n / 100) + seq!['.', digit_char((n % 100) / 10), digit_char(n % 10), ' ']
        + unit_name(i)
}



/// The value `x as f64` has, for `x` below `2^64`.
fn f64_value_exec(x: u64) -> (r: u128)
    ensures
        r == f64_value(x as nat),
        r <= 0x1_0000_0000_0000_0000,
        x < 1024 ==> r == x,
        x >= 1024 ==> r >= 1024,
{
    proof {
        lemma2_to64();
        lemma2_to64_rest();
    }
    let xx = x as u128;
    let mut e: u64 = 0;
    let mut p: u128 = 1;
    while xx >= p * 0x20_0000_0000_0000
        invariant
            xx == x,
            p == pow2(e as nat),
            e <= 11,
            p <= 0x800,
            e > 0 ==> xx >= p * 0x10_0000_0000_0000,
            f64_value(x as nat) == f64_round_from(x as nat, e as nat),
            pow2(53) == 0x20_0000_0000_0000,
            pow2(11) == 0x800,
            pow2(10) == 0x400,
        decreases 11 - e,
    {
        proof {
            lemma_pow2_adds(e as nat, 53);
        }
        assert(e < 11) by {
            if e >= 11 {
                if e > 11 {
                    lemma_pow2_strictly_increases(11, e as nat);
                }
            }
        }
        assert(p <= 0x400) by {
            if e < 10 {
                lemma_pow2_strictly_increases(e as nat, 10);
            }
        }
        proof {
            lemma_pow2_unfold((e + 1) as nat);
        }
        e = e + 1;
        p = p * 2;
    }
    proof {
        lemma_pow2_adds(e as nat, 53);
    }
    let q = xx / p;
    let r = xx % p;
    assert(q * p + r == xx && r < p) by (nonlinear_arith)
        requires q == xx / p, r == xx % p, p >= 1;
    assert(q < 0x20_0000_0000_0000) by (nonlinear_arith)
        requires q * p + r == xx, r >= 0, xx < p * 0x20_0000_0000_0000, p >= 1;
    assert(e > 0 ==> q >= 0x10_0000_0000_0000) by (nonlinear_arith)
        requires q * p + r == xx, r < p, e > 0 ==> xx >= p * 0x10_0000_0000_0000, p >= 1;
    assert((q + 1) * p <= 0x1_0000_0000_0000_0000) by (nonlinear_arith)
        requires q < 0x20_0000_0000_0000, p <= 0x800, p >= 1;
    let v = if 2 * r > p || (2 * r == p && q % 2 == 1) {
        (q + 1) * p
    } else {
        q * p
    };
    assert(v == round_to_multiple(x as nat, e as nat));
    assert(v >= q * p) by (nonlinear_arith)
        requires v == q * p || v == (q + 1) * p, p >= 1, q >= 0;
    if x < 1024 {
        assert(e == 0);
        assert(q == xx && r == 0) by (nonlinear_arith)
            requires q * p + r == xx, r < p, p == 1;
    } else {
        assert(v >= 1024) by (nonlinear_arith)
            requires
                q * p + r == xx,
                r < p,
                xx >= 1024,
                p <= 0x800,
                p >= 1,
                v >= q * p,
                e == 0 ==> p == 1,
                e > 0 ==> q >= 0x10_0000_0000_0000,
        ;
    }
    v
}

fn unit_name_chars(i: u64) -> (r: Vec<char>)
    requires
        i <= 8,
    ensures
        r@ == unit_name(i as nat),
{
    let r = if i == 0 {
        vec!['B']
    } else if i == 1 {
        vec!['K', 'B']
    } else if i == 2 {
        vec!['M', 'B']
    } else if i == 3 {
        vec!['G', 'B']
    } else if i == 4 {
        vec!['T', 'B']
    } else if i == 5 {
        vec!['P', 'B']
    } else if i == 6 {
        vec!['E', 'B']
    } else if i == 7 {
        vec!['Z', 'B']
    } else {
        vec!['Y', 'B']
    };
    assert(r@ =~= unit_name(i as nat));
    r
}

/// The unit index for `x` bytes and `1024` raised to it.
fn unit_index_exec(x: u128) -> (r: (u64, u128))
    requires
        x <= 0x1_0000_0000_0000_0000,
    ensures
        r.0 == unit_index_from(x as nat, 0),
        r.0 <= 8,
        r.1 == pow2(10 * r.0 as nat),
        r.1 >= 1024 || (r.1 == 1 && x < 1024),
{
    proof {
        lemma2_to64();
    }
    let mut i: u64 = 0;
    let mut d: u128 = 1;
    while i < 8 && x >= d * 1024
        invariant
            i <= 8,
            d == pow2(10 * i as nat),
            unit_index_from(x as nat, 0) == unit_index_from(x as nat, i as nat),
            x <= 0x1_0000_0000_0000_0000,
            i > 0 ==> d <= x,
            i > 0 ==> d >= 1024,
            i == 0 ==> d == 1,
            pow2(10) == 1024,
        decreases 8 - i,
    {
        proof {
            lemma_pow2_adds(10 * i as nat, 10);
            assert(10 * (i + 1) == 10 * i + 10);
        }
        i = i + 1;
        d = d * 1024;
    }
    proof {
        lemma_pow2_adds(10 * i as nat, 10);
        assert(10 * (i + 1) == 10 * i + 10);
        assert(unit_index_from(x as nat, i as nat) == i);
    }
    (i, d)
}

/// `x / d` to hundredths, rounded half to even, in hundredths.
fn hundredths_exec(x: u128, d: u128) -> (n: u64)
    requires
        x <= 0x1_0000_0000_0000_0000,
        d >= 1024 || (d == 1 && x < 1024),
    ensures
        n == div_round_half_even(x as nat * 100, d as nat),
{
    let a = x * 100;
    let q = a / d;
    let rem = a % d;
    assert(q * d + rem == a && rem < d) by (nonlinear_arith)
        requires q == a / d, rem == a % d, d >= 1;
    assert(q < 0x7000_0000_0000_0000) by (nonlinear_arith)
        requires
            q * d + rem == a,
            rem >= 0,
            a == x * 100,
            x <= 0x1_0000_0000_0000_0000,
            d >= 1024 || (d == 1 && x < 1024),
    ;
    let n = if 2 * rem > d || (2 * rem == d && q % 2 == 1) {
        q + 1
    } else {
        q
    };
    n as u64
}

/// A byte count as text for people: the count in the largest unit (`B`,
/// `KB`, ... `YB`, each 1024 times the one before) in which it is at least
/// one, with two decimals, e.g. `1.50 KB` for 1536.
pub fn human_readable_size(bytes: u64) -> (r: String)
    ensures
        r@ == human_size_text(bytes as nat),
{
    let x = f64_value_exec(bytes);
    let (i, d) = unit_index_exec(x);
    let n = hundredths_exec(x, d);
    let int_part = n / 100;
    let frac = n % 100;
    let mut out: Vec<char> = Vec::new();
    push_digits(&mut out, int_part, 10);
    out.push('.');
    out.push(DIGITS[(frac / 10) as usize]);
    out.push(DIGITS[(frac % 10) as usize]);
    out.push(' ');
    let unit = unit_name_chars(i);
    let mut k: usize = 0;
    let ghost before = out@;
    while k < unit.len()
        invariant
            k <= unit.len(),
            out@ =~= before + unit@.take(k as int),
        decreases unit.len() - k,
    {
        out.push(unit[k]);
        k = k + 1;
    }
    assert(unit@.take(unit.len() as int) =~= unit@);
    assert(out@ =~= human_size_text(bytes as nat));
    string_from_chars(out.as_slice())
}

/// Why a text could not be turned into a time stamp, or a time stamp into
/// a text.
#[derive(Clone, Copy, Debug, PartialEq, Eq)]
pub enum TimeError {
    /// The text does not match the expected date and time layout.
    Unparsable,
    /// The date lies before 1970, so no unsigned time stamp stands for it.
    BeforeEpoch,
    /// The file name does not contain `IMG_`.
    NoImagePrefix,
    /// The time stamp lies beyond the range of dates that can be written.
    OutOfRange,
}

/// The seconds since 1970-01-01 00:00:00 (UTC) of the date and time that
/// `chrono::NaiveDateTime::parse_from_str(text, format)` reads from `text`,
/// or `None` where it returns an error.
pub uninterp spec fn naive_date_time_seconds(text: Seq<char>, format: Seq<char>) -> Option<i64>;

/// The seconds since 1970-01-01 00:00:00 UTC of the instant that
/// `chrono::DateTime::parse_from_rfc2822(text)` reads from `text`, or `None`
/// where it returns an error.
pub uninterp spec fn rfc2822_seconds(text: Seq<char>) -> Option<i64>;

/// The text that chrono writes for the instant `seconds` after 1970-01-01
/// 00:00:00 UTC with `format`, or `None` where `Utc.timestamp_opt(seconds, 0)`
/// has no single result (the instant lies outside chrono's range of dates).
pub uninterp spec fn utc_date_time_text(seconds: i64, format: Seq<char>) -> Option<Seq<char>>;

/// Calls `chrono::NaiveDateTime::parse_from_str(text, format)` and takes the
/// parsed date and time as seconds since 1970 in UTC; the contract claims
/// only that the result is what chrono computes for these two texts.
#[verifier::external_body]
fn parse_naive_seconds(text: &str, format: &str) -> (r: Option<i64>)
    ensures
        r == naive_date_time_seconds(text@, format@),
{
    chrono::NaiveDateTime::parse_from_str(text, format).ok().map(|d| d.and_utc().timestamp())
}

/// Calls `chrono::DateTime::parse_from_rfc2822(text)` and takes the parsed
/// instant as seconds since 1970; the contract claims only that the result
/// is what chrono computes for this text.
#[verifier::external_body]
fn parse_rfc2822_seconds(text: &str) -> (r: Option<i64>)
    ensures
        r == rfc2822_seconds(text@),
{
    chrono::DateTime::parse_from_rfc2822(text).ok().map(|d| d.timestamp())
}

/// The layout of an HTTP date, `Sun, 06 Nov 1994 08:49:37 GMT`.
pub open spec fn http_date_format() -> Seq<char> {
    "%a, %d %b %Y %H:%M:%S GMT"@
}

/// The last second of the year 9999 (9999-12-31 23:59:59 UTC): up to it,
/// chrono writes the year of an HTTP date with four digits.
pub open spec fn last_four_digit_year_second() -> int {
    253402300799
}

/// Calls `chrono::Utc.timestamp_opt(seconds, 0).single()` and formats the
/// instant with `format`; the contract claims that the result is what
/// chrono computes for these arguments, and, for instants from 1970 to the
/// end of the year 9999, that there is a result and that
/// `DateTime::parse_from_rfc2822` reads it back as the same instant (the
/// layout writes the weekday, day, month name, four-digit year and time
/// that RFC 2822 parsing reads, and `GMT`, which it reads as UTC). The
/// format is the HTTP-date layout, which chrono can always write.
#[verifier::external_body]
fn format_utc_seconds(seconds: i64, format: &str) -> (r: Option<String>)
    requires
        format@ == http_date_format(),
    ensures
        match r {
            Some(t) => utc_date_time_text(seconds, format@) == Some(t@),
            None => utc_date_time_text(seconds, format@) is None,
        },
        0 <= seconds <= last_four_digit_year_second() ==> r is Some && rfc2822_seconds(
            r.unwrap()@,
        ) == Some(seconds),
{
    chrono::Utc.timestamp_opt(seconds, 0).single().map(|d| d.format(format).to_string())
}

/// The layout of a date and time such as `2024-01-01 12:12:12`.
pub open spec fn date_time_format() -> Seq<char> {
    "%Y-%m-%d %H:%M:%S"@
}

/// The layout of the date and time in a camera file name such as
/// `IMG_20200916_205836.jpg`.
pub open spec fn file_name_time_format() -> Seq<char> {
    "%Y%m%d_%H%M%S"@
}

/// Seconds read with `format`, as an unsigned time stamp.
pub open spec fn seconds_to_timestamp(parsed: Option<i64>) -> Result<u64, TimeError> {
    match parsed {
        None => Err(TimeError::Unparsable),
        Some(t) => if t >= 0 {
            Ok(t as u64)
        } else {
            Err(TimeError::BeforeEpoch)
        },
    }
}

fn to_timestamp(parsed: Option<i64>) -> (r: Result<u64, TimeError>)
    ensures
        r == seconds_to_timestamp(parsed),
{
    match parsed {
        None => Err(TimeError::Unparsable),
        Some(t) => if t >= 0 {
            Ok(t as u64)
        } else {
            Err(TimeError::BeforeEpoch)
        },
    }
}

/// The time stamp of a date and time written as `2024-01-01 12:12:12`.
pub fn date_str_to_timestamp(date_time_str: &str) -> (r: Result<u64, TimeError>)
    ensures
        r == seconds_to_timestamp(naive_date_time_seconds(date_time_str@, date_time_format())),
{
    to_timestamp(parse_naive_seconds(date_time_str, "%Y-%m-%d %H:%M:%S"))
}

/// `IMG_` as characters.
pub open spec fn img_marker() -> Seq<char> {
    seq!['I', 'M', 'G', '_']
}

/// The part of a file name that holds its date and time: what follows the
/// first `IMG_`, up to the next `IMG_` and then up to the first `.`; `None`
/// where the name has no `IMG_`.
pub open spec fn file_name_time_part(name: Seq<char>) -> Option<Seq<char>> {
    match find_from(name, img_marker(), 0) {
        None => None,
        Some(k) => {
            let rest = name.skip(k + 4);
            let segment = match find_from(rest, img_marker(), 0) {
                Some(j) => rest.take(j),
                None => rest,
            };
            Some(
                match find_from(segment, seq!['.'], 0) {
                    Some(j) => segment.take(j),
                    None => segment,
                },
            )
        },
    }
}

/// What `filename_to_timestamp` gives for a file name.
pub open spec fn spec_filename_to_timestamp(name: Seq<char>) -> Result<u64, TimeError> {
    match file_name_time_part(name) {
        None => Err(TimeError::NoImagePrefix),
        Some(part) => seconds_to_timestamp(naive_date_time_seconds(part, file_name_time_format())),
    }
}

fn prefix_until(s: &[char], p: &[char]) -> (r: Vec<char>)
    ensures
        r@ == match find_from(s@, p@, 0) {
            Some(j) => s@.take(j),
            None => s@,
        },
{
    let end = match find_chars(s, p, 0) {
        Some(j) => j,
        None => s.len(),
    };
    proof {
        crate::text::lemma_find_from(s@, p@, 0);
    }
    let mut out: Vec<char> = Vec::new();
    let mut i: usize = 0;
    while i < end
        invariant
            i <= end <= s.len(),
            out@ =~= s@.take(i as int),
        decreases end - i,
    {
        out.push(s[i]);
        i = i + 1;
    }
    assert(s@.take(s.len() as int) =~= s@);
    out
}

/// The time stamp of the date and time in a camera file name such as
/// `IMG_20200916_205836.jpg` (see `file_name_time_part`).
pub fn filename_to_timestamp(filename: &str) -> (r: Result<u64, TimeError>)
    ensures
        r == spec_filename_to_timestamp(filename@),
{
    let name = str_chars(filename);
    let marker = vec!['I', 'M', 'G', '_'];
    assert(marker@ =~= img_marker());
    match find_chars(name.as_slice(), marker.as_slice(), 0) {
        None => Err(TimeError::NoImagePrefix),
        Some(k) => {
            proof {
                crate::text::lemma_find_from(name@, img_marker(), 0);
            }
            assert(k + 4 <= name.len());
            let mut rest: Vec<char> = Vec::new();
            let mut i: usize = k + 4;
            while i < name.len()
                invariant
                    k + 4 <= name.len(),
                    k + 4 <= i <= name.len(),
                    rest@ =~= name@.subrange(k + 4, i as int),
                decreases name.len() - i,
            {
                rest.push(name[i]);
                i = i + 1;
            }
            assert(rest@ =~= name@.skip(k + 4));
            let segment = prefix_until(rest.as_slice(), marker.as_slice());
            let dot = vec!['.'];
            assert(dot@ =~= seq!['.']);
            let part = prefix_until(segment.as_slice(), dot.as_slice());
            let part_text = string_from_chars(part.as_slice());
            to_timestamp(parse_naive_seconds(part_text.as_str(), "%Y%m%d_%H%M%S"))
        },
    }
}

/// The time stamp of an HTTP date header value (RFC 2822 layout, e.g.
/// `Wed, 21 Oct 2015 07:28:00 GMT`); a date before 1970 wraps around as a
/// cast of a negative number to `u64` does.
pub fn convert_http_date_to_u64(header_value: &str) -> (r: Result<u64, TimeError>)
    ensures
        r == match rfc2822_seconds(header_value@) {
            None => Err(TimeError::Unparsable),
            Some(t) => Ok(t as u64),
        },
{
    match parse_rfc2822_seconds(header_value) {
        None => Err(TimeError::Unparsable),
        Some(t) => Ok(t as u64),
    }
}

/// The HTTP date (`Sun, 06 Nov 1994 08:49:37 GMT`) of a time stamp. Up to
/// the end of the year 9999 there is one, and `convert_http_date_to_u64`
/// reads it back as the same time stamp.
pub fn convert_u64_to_http_date(timestamp: u64) -> (r: Result<String, TimeError>)
    ensures
        timestamp <= last_four_digit_year_second() ==> (r matches Ok(text) && rfc2822_seconds(
            text@,
        ) == Some(timestamp as i64)),
        timestamp > i64::MAX ==> r == Err::<String, TimeError>(TimeError::OutOfRange),
        timestamp <= i64::MAX ==> match utc_date_time_text(timestamp as i64, http_date_format()) {
            None => r == Err::<String, TimeError>(TimeError::OutOfRange),
            Some(text) => r is Ok && r->Ok_0@ == text,
        },
{
    if timestamp > i64::MAX as u64 {
        return Err(TimeError::OutOfRange);
    }
    match format_utc_seconds(timestamp as i64, "%a, %d %b %Y %H:%M:%S GMT") {
        None => Err(TimeError::OutOfRange),
        Some(text) => Ok(text),
    }
}

} // verus!
