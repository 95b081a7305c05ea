//! Character-sequence helpers shared by the rest of the library.
use vstd::prelude::*;

verus! {

/// The characters of a string slice, in order.
pub fn str_chars(s: &str) -> (r: Vec<char>)
    ensures
        r@ == s@,
{
    broadcast use vstd::string::axiom_spec_iter;
    let mut out: Vec<char> = Vec::new();
    for c in it: s.chars()
        invariant
            it.seq() == s@,
            out@ == s@.take(it.index()),
    {
        assert(s@.take(it.index() + 1) =~= s@.take(it.index()).push(c));
        out.push(c);
    }
    assert(s@.take(s@.len() as int) =~= s@);
    out
}

/// The string made of the given characters, in order.
#[verifier::external_body]
pub(crate) fn string_from_chars(v: &[char]) -> (r: String)
    ensures
        r@ == v@,
{
    v.iter().collect()
}

/// Lower-case hexadecimal and decimal digit characters.
pub const DIGITS: [char; 16] = [
    '0', '1', '2', '3', '4', '5', '6', '7', '8', '9', 'a', 'b', 'c', 'd', 'e', 'f',
];

/// The digit character for `d` (lower-case letters above nine).
pub open spec fn digit_char(d: nat) -> char {
    DIGITS@[d as int]
}

/// The digits of `n` written in base `base`, most significant first, with no
/// leading zeros (zero is written as a single `0`).
pub open spec fn digits_in_base(n: nat, base: nat) -> Seq<char>
    recommends
        2 <= base <= 16,
    decreases n,
{
    if base < 2 || n < base {
        seq![digit_char(n)]
    } else {
        proof {
            vstd::arithmetic::div_mod::lemma_div_decreases(n as int, base as int);
        }
        digits_in_base(n / base, base).push(digit_char(n % base))
    }
}

/// `n` written in decimal, as `{}` writes an unsigned integer.
pub open spec fn decimal(n: nat) -> Seq<char> {
    digits_in_base(n, 10)
}

/// `n` written in lower-case hexadecimal, as `{:x}` writes an unsigned integer.
pub open spec fn hex(n: nat) -> Seq<char> {
    digits_in_base(n, 16)
}

/// Appends the digits of `n` in base `base` to `out`.
pub fn push_digits(out: &mut Vec<char>, n: u64, base: u64)
    requires
        2 <= base <= 16,
    ensures
        final(out)@ == old(out)@ + digits_in_base(n as nat, base as nat),
    decreases n,
{
    if n >= base {
        assert(n / base < n) by (nonlinear_arith)
            requires n >= base, base >= 2;
        push_digits(out, n / base, base);
    }
    assert(n % base < base) by (nonlinear_arith)
        requires base >= 2;
    assert(n < base ==> n % base == n) by (nonlinear_arith)
        requires base >= 2;
    let d = (n % base) as usize;
    out.push(DIGITS[d]);
    proof {
        if n >= base {
            assert(old(out)@ + digits_in_base(n as nat, base as nat) =~= old(out)@
                + digits_in_base((n / base) as nat, base as nat) + seq![DIGITS@[d as int]]);
        }
    }
}

/// `n` in decimal, as `n.to_string()` gives it.
pub fn u64_to_decimal(n: u64) -> (r: String)
    ensures
        r@ == decimal(n as nat),
{
    let mut v: Vec<char> = Vec::new();
    push_digits(&mut v, n, 10);
    assert(v@ =~= decimal(n as nat));
    string_from_chars(v.as_slice())
}


/// Whether `c` is an ASCII decimal digit.
pub open spec fn is_digit(c: char) -> bool {
    48 <= c as u32 <= 57
}

/// The value of a decimal digit character.
pub open spec fn digit_value(c: char) -> nat {
    (c as u32 - 48) as nat
}

/// Whether every character of `s` is an ASCII decimal digit.
pub open spec fn all_digits(s: Seq<char>) -> bool {
    forall|i: int| 0 <= i < s.len() ==> is_digit(#[trigger] s[i])
}

/// The number that the decimal digits `s` spell (zero for no digits).
pub open spec fn digits_value(s: Seq<char>) -> nat
    decreases s.len(),
{
    if s.len() == 0 {
        0
    } else {
        digits_value(s.drop_last()) * 10 + digit_value(s.last())
    }
}

/// What `str::parse` accepts for an unsigned integer: one optional leading
/// `+`, then at least one decimal digit, and nothing else.
pub open spec fn unsigned_digits(s: Seq<char>) -> Seq<char> {
    if s.len() > 0 && s[0] == '+' {
        s.skip(1)
    } else {
        s
    }
}

/// The value `str::parse` gives for an unsigned integer type whose largest
/// value is `max`, or `None` where it returns an error (empty text, a
/// character that is not a digit, or a value above `max`).
pub open spec fn parse_unsigned(s: Seq<char>, max: nat) -> Option<nat> {
    let d = unsigned_digits(s);
    if d.len() > 0 && all_digits(d) && digits_value(d) <= max {
        Some(digits_value(d))
    } else {
        None
    }
}

/// A longer prefix of digits never spells a smaller number.
pub proof fn lemma_digits_value_prefix(s: Seq<char>, j: int)
    requires
        0 <= j <= s.len(),
    ensures
        digits_value(s.take(j)) <= digits_value(s),
    decreases s.len(),
{
    if j < s.len() {
        lemma_digits_value_prefix(s.drop_last(), j);
        assert(s.drop_last().take(j) =~= s.take(j));
    } else {
        assert(s.take(j) =~= s);
    }
}

/// Parses `s` as `str::parse` parses an unsigned integer no larger than `max`.
pub fn parse_unsigned_chars(s: &[char], max: u64) -> (r: Option<u64>)
    ensures
        match r {
            Some(v) => parse_unsigned(s@, max as nat) == Some(v as nat),
            None => parse_unsigned(s@, max as nat) is None,
        },
{
    let start: usize = if s.len() > 0 && s[0] == '+' { 1 } else { 0 };
    let ghost d = unsigned_digits(s@);
    assert(d =~= s@.skip(start as int));
    if start >= s.len() {
        return None;
    }
    let mut acc: u64 = 0;
    let mut i: usize = start;
    while i < s.len()
        invariant
            start <= i <= s.len(),
            d =~= s@.skip(start as int),
            d == unsigned_digits(s@),
            acc as nat == digits_value(d.take(i - start)),
            acc <= max,
            all_digits(d.take(i - start)),
        decreases s.len() - i,
    {
        let c = s[i];
        assert(d[i - start] == c);
        let cu = c as u32;
        if !(48 <= cu && cu <= 57) {
            assert(!is_digit(d[i - start]));
            return None;
        }
        let dv = (cu - 48) as u64;
        assert(d.take(i + 1 - start).drop_last() =~= d.take(i - start));
        assert(digits_value(d.take(i + 1 - start)) == acc * 10 + dv);
        if dv > max || acc > (max - dv) / 10 {
            proof {
                lemma_digits_value_prefix(d, i + 1 - start);
                assert(acc * 10 + dv > max) by (nonlinear_arith)
                    requires
                        dv > max || acc > (max - dv) / 10,
                        acc >= 0,
                ;
            }
            return None;
        }
        assert(acc * 10 + dv <= max) by (nonlinear_arith)
            requires
                dv <= max,
                acc <= (max - dv) / 10,
        ;
        acc = acc * 10 + dv;
        i = i + 1;
        assert(all_digits(d.take(i - start))) by {
            assert forall|k: int| 0 <= k < d.take(i - start).len() implies is_digit(
                #[trigger] d.take(i - start)[k],
            ) by {
                if k < i - 1 - start {
                    assert(d.take(i - start)[k] == d.take(i - 1 - start)[k]);
                }
            }
        }
    }
    assert(d.take(i - start) =~= d);
    Some(acc)
}


/// `c` with ASCII upper-case letters mapped to lower case, as
/// `char::to_ascii_lowercase` maps it.
pub open spec fn ascii_lower(c: char) -> char {
    if 65 <= c as u32 <= 90 {
        ((c as u32) + 32) as char
    } else {
        c
    }
}

/// `s` with every ASCII upper-case letter mapped to lower case.
pub open spec fn ascii_lower_seq(s: Seq<char>) -> Seq<char> {
    s.map_values(|c: char| ascii_lower(c))
}

/// The ASCII lower-case form of `s`.
pub fn to_ascii_lowercase(s: &[char]) -> (r: Vec<char>)
    ensures
        r@ == ascii_lower_seq(s@),
{
    let mut out: Vec<char> = Vec::new();
    let mut i: usize = 0;
    while i < s.len()
        invariant
            i <= s.len(),
            out@ =~= ascii_lower_seq(s@.take(i as int)),
        decreases s.len() - i,
    {
        let c = s[i];
        let cu = c as u32;
        let l = if 65 <= cu && cu <= 90 {
            let b = (cu + 32) as u8;
            assert(b == cu + 32);
            b as char
        } else {
            c
        };
        assert(l == ascii_lower(c));
        out.push(l);
        i = i + 1;
        assert(ascii_lower_seq(s@.take(i as int)) =~= ascii_lower_seq(s@.take(i - 1)).push(l));
    }
    assert(s@.take(s.len() as int) =~= s@);
    out
}

/// Whether `c` has the Unicode property `White_Space`, which is what
/// `char::is_whitespace` tests.
pub open spec fn is_white_space(c: char) -> bool {
    let u = c as u32;
    ||| 9 <= u <= 13
    ||| u == 32
    ||| u == 0x85
    ||| u == 0xA0
    ||| u == 0x1680
    ||| 0x2000 <= u <= 0x200A
    ||| u == 0x2028
    ||| u == 0x2029
    ||| u == 0x202F
    ||| u == 0x205F
    ||| u == 0x3000
}

/// `s` without its leading white space.
pub open spec fn trim_start(s: Seq<char>) -> Seq<char>
    decreases s.len(),
{
    if s.len() > 0 && is_white_space(s[0]) {
        trim_start(s.skip(1))
    } else {
        s
    }
}

/// `s` without its trailing white space.
pub open spec fn trim_end(s: Seq<char>) -> Seq<char>
    decreases s.len(),
{
    if s.len() > 0 && is_white_space(s.last()) {
        trim_end(s.drop_last())
    } else {
        s
    }
}

/// `s` without leading and trailing white space, as `str::trim` gives it.
pub open spec fn trim(s: Seq<char>) -> Seq<char> {
    trim_end(trim_start(s))
}

/// Whether `c` is white space (see `is_white_space`).
pub fn char_is_white_space(c: char) -> (r: bool)
    ensures
        r == is_white_space(c),
{
    let u = c as u32;
    (9 <= u && u <= 13) || u == 32 || u == 0x85 || u == 0xA0 || u == 0x1680 || (0x2000 <= u && u
        <= 0x200A) || u == 0x2028 || u == 0x2029 || u == 0x202F || u == 0x205F || u == 0x3000
}

/// `s` without leading and trailing white space.
pub fn trim_chars(s: &[char]) -> (r: Vec<char>)
    ensures
        r@ == trim(s@),
{
    let mut a: usize = 0;
    assert(s@.skip(0) =~= s@);
    while a < s.len() && char_is_white_space(s[a])
        invariant
            a <= s.len(),
            trim_start(s@) == trim_start(s@.skip(a as int)),
        decreases s.len() - a,
    {
        assert(s@.skip(a as int).skip(1) =~= s@.skip(a + 1));
        a = a + 1;
    }
    let ghost t = s@.skip(a as int);
    assert(trim_start(s@) == t);
    let mut b: usize = s.len();
    while b > a && char_is_white_space(s[b - 1])
        invariant
            a <= b <= s.len(),
            t == s@.skip(a as int),
            trim_end(t) == trim_end(s@.subrange(a as int, b as int)),
        decreases b,
    {
        assert(s@.subrange(a as int, b as int).drop_last() =~= s@.subrange(a as int, b - 1));
        b = b - 1;
    }
    assert(s@.subrange(a as int, s.len() as int) =~= t);
    let mut out: Vec<char> = Vec::new();
    let mut i: usize = a;
    while i < b
        invariant
            a <= i <= b,
            b <= s.len(),
            out@ =~= s@.subrange(a as int, i as int),
        decreases b - i,
    {
        out.push(s[i]);
        i = i + 1;
    }
    out
}

/// Whether the character sequences are equal.
pub fn chars_eq(a: &[char], b: &[char]) -> (r: bool)
    ensures
        r == (a@ == b@),
{
    if a.len() != b.len() {
        return false;
    }
    let mut i: usize = 0;
    while i < a.len()
        invariant
            i <= a.len(),
            a.len() == b.len(),
            a@.take(i as int) =~= b@.take(i as int),
        decreases a.len() - i,
    {
        if a[i] != b[i] {
            return false;
        }
        i = i + 1;
        assert(a@.take(i as int) =~= a@.take(i - 1).push(a@[i - 1]));
        assert(b@.take(i as int) =~= b@.take(i - 1).push(b@[i - 1]));
    }
    assert(a@ =~= a@.take(a.len() as int));
    assert(b@ =~= b@.take(b.len() as int));
    true
}

/// Whether `p` occurs in `s` at position `i`.
pub open spec fn occurs_at(s: Seq<char>, p: Seq<char>, i: int) -> bool {
    0 <= i && i + p.len() <= s.len() && s.subrange(i, i + p.len()) == p
}

/// Whether `s` starts with `p`.
pub fn starts_with_at(s: &[char], p: &[char], i: usize) -> (r: bool)
    requires
        i <= s.len(),
    ensures
        r == occurs_at(s@, p@, i as int),
{
    if p.len() > s.len() - i {
        return false;
    }
    let mut k: usize = 0;
    while k < p.len()
        invariant
            k <= p.len(),
            i + p.len() <= s.len(),
            forall|j: int| 0 <= j < k ==> s@[i + j] == p@[j],
        decreases p.len() - k,
    {
        if s[i + k] != p[k] {
            assert(s@.subrange(i as int, i + p.len())[k as int] != p@[k as int]);
            return false;
        }
        k = k + 1;
    }
    assert(s@.subrange(i as int, i + p.len()) =~= p@);
    true
}

/// The first position at which `p` occurs in `s`, searching from `from`.
pub open spec fn find_from(s: Seq<char>, p: Seq<char>, from: int) -> Option<int>
    decreases s.len() + 1 - from,
{
    if from < 0 || from + p.len() > s.len() {
        None
    } else if occurs_at(s, p, from) {
        Some(from)
    } else {
        find_from(s, p, from + 1)
    }
}

/// What `find_from` finds occurs there, and nothing occurs before it.
pub proof fn lemma_find_from(s: Seq<char>, p: Seq<char>, from: int)
    requires
        0 <= from,
    ensures
        match find_from(s, p, from) {
            Some(k) => from <= k && occurs_at(s, p, k) && forall|j: int|
                from <= j < k ==> !occurs_at(s, p, j),
            None => forall|j: int| from <= j ==> !occurs_at(s, p, j),
        },
    decreases s.len() + 1 - from,
{
    if from + p.len() > s.len() {
    } else if occurs_at(s, p, from) {
    } else {
        lemma_find_from(s, p, from + 1);
    }
}

/// The first position, at `from` or later, at which `p` occurs in `s`.
pub fn find_chars(s: &[char], p: &[char], from: usize) -> (r: Option<usize>)
    requires
        from <= s.len(),
    ensures
        match r {
            Some(k) => find_from(s@, p@, from as int) == Some(k as int),
            None => find_from(s@, p@, from as int) is None,
        },
{
    let mut i: usize = from;
    while i < s.len()
        invariant
            from <= i <= s.len(),
            find_from(s@, p@, from as int) == find_from(s@, p@, i as int),
        decreases s.len() - i,
    {
        if p.len() > s.len() - i {
            return None;
        }
        if starts_with_at(s, p, i) {
            return Some(i);
        }
        i = i + 1;
    }
    let found = starts_with_at(s, p, i);
    assert(find_from(s@, p@, i as int) == if found { Some(i as int) } else { None::<int> }) by {
        if !found && p.len() == 0 {
            assert(s@.subrange(i as int, i as int) =~= p@);
        }
    }
    if found {
        Some(i)
    } else {
        None
    }
}

/// `s` with every occurrence of a character of `cs` removed.
pub open spec fn remove_chars(s: Seq<char>, cs: Seq<char>) -> Seq<char> {
    s.filter(|c: char| !cs.contains(c))
}

/// `s` with every occurrence of a character of `cs` removed, as
/// `str::replace(cs, "")` gives it for a pattern that is a set of characters.
pub fn remove_chars_exec(s: &[char], cs: &[char]) -> (r: Vec<char>)
    ensures
        r@ == remove_chars(s@, cs@),
{
    let mut out: Vec<char> = Vec::new();
    let mut i: usize = 0;
    while i < s.len()
        invariant
            i <= s.len(),
            out@ == remove_chars(s@.take(i as int), cs@),
        decreases s.len() - i,
    {
        let c = s[i];
        let mut found = false;
        let mut k: usize = 0;
        while k < cs.len()
            invariant
                k <= cs.len(),
                found == exists|j: int| 0 <= j < k && cs@[j] == c,
            decreases cs.len() - k,
        {
            if cs[k] == c {
                found = true;
            }
            k = k + 1;
        }
        assert(found == cs@.contains(c));
        assert(s@.take(i + 1).drop_last() =~= s@.take(i as int));
        if !found {
            out.push(c);
        }
        i = i + 1;
        assert(remove_chars(s@.take(i as int), cs@) =~= out@) by {
            reveal_with_fuel(Seq::filter, 1);
        }
    }
    assert(s@.take(s.len() as int) =~= s@);
    out
}

/// `s` with every occurrence of `p` removed, searching from the left and
/// never letting two removed occurrences overlap, as `str::replace(p, "")`
/// gives it. An empty `p` leaves `s` as it is.
pub open spec fn remove_all(s: Seq<char>, p: Seq<char>) -> Seq<char>
    decreases s.len(),
{
    if p.len() == 0 || s.len() < p.len() {
        s
    } else if s.take(p.len() as int) == p {
        remove_all(s.skip(p.len() as int), p)
    } else {
        seq![s[0]] + remove_all(s.skip(1), p)
    }
}

/// `s` with every occurrence of `p` removed (see `remove_all`).
pub fn remove_all_exec(s: &[char], p: &[char]) -> (r: Vec<char>)
    ensures
        r@ == remove_all(s@, p@),
{
    let mut out: Vec<char> = Vec::new();
    if p.len() == 0 {
        let mut k: usize = 0;
        while k < s.len()
            invariant
                k <= s.len(),
                out@ =~= s@.take(k as int),
            decreases s.len() - k,
        {
            out.push(s[k]);
            k = k + 1;
        }
        assert(s@.take(s.len() as int) =~= s@);
        return out;
    }
    let mut i: usize = 0;
    assert(out@ + remove_all(s@.skip(0), p@) =~= remove_all(s@, p@)) by {
        assert(s@.skip(0) =~= s@);
    }
    while i < s.len()
        invariant
            i <= s.len(),
            p.len() > 0,
            out@ + remove_all(s@.skip(i as int), p@) == remove_all(s@, p@),
        decreases s.len() - i,
    {
        let ghost rest = s@.skip(i as int);
        if p.len() <= s.len() - i && starts_with_at(s, p, i) {
            assert(rest.take(p.len() as int) =~= s@.subrange(i as int, i + p.len()));
            assert(rest.skip(p.len() as int) =~= s@.skip(i + p.len()));
            i = i + p.len();
        } else {
            assert(rest.len() < p.len() || rest.take(p.len() as int) != p@) by {
                if rest.len() >= p.len() {
                    assert(rest.take(p.len() as int) =~= s@.subrange(i as int, i + p.len()));
                }
            }
            if p.len() > s.len() - i {
                let ghost before = out@;
                let mut k: usize = i;
                while k < s.len()
                    invariant
                        i <= k <= s.len(),
                        out@ =~= before + s@.subrange(i as int, k as int),
                    decreases s.len() - k,
                {
                    out.push(s[k]);
                    k = k + 1;
                }
                assert(s@.subrange(i as int, s.len() as int) =~= rest);
                return out;
            }
            assert(rest.skip(1) =~= s@.skip(i + 1));
            assert(out@ + remove_all(rest, p@) =~= out@.push(s@[i as int]) + remove_all(
                s@.skip(i + 1),
                p@,
            ));
            out.push(s[i]);
            i = i + 1;
        }
    }
    assert(s@.skip(i as int) =~= Seq::<char>::empty());
    assert(out@ =~= out@ + Seq::<char>::empty());
    out
}

/// Appends the characters of `s` to `out`.
pub fn append_chars(out: &mut Vec<char>, s: &[char])
    ensures
        final(out)@ == old(out)@ + s@,
{
    let ghost before = out@;
    let mut i: usize = 0;
    while i < s.len()
        invariant
            i <= s.len(),
            out@ =~= before + s@.take(i as int),
        decreases s.len() - i,
    {
        out.push(s[i]);
        i = i + 1;
    }
    assert(s@.take(s.len() as int) =~= s@);
}

/// The lower-case form of `s` under Unicode's case mapping, as
/// `str::to_lowercase` computes it.
pub uninterp spec fn unicode_lowercase(s: Seq<char>) -> Seq<char>;

/// Calls `str::to_lowercase`; the contract claims only that the result is
/// what that function computes for `s`.
#[verifier::external_body]
pub(crate) fn to_lowercase(s: &str) -> (r: String)
    ensures
        r@ == unicode_lowercase(s@),
{
    s.to_lowercase()
}

/// The last position of `c` in `s`.
pub open spec fn last_index_of(s: Seq<char>, c: char) -> Option<int>
    decreases s.len(),
{
    if s.len() == 0 {
        None
    } else if s.last() == c {
        Some(s.len() - 1)
    } else {
        last_index_of(s.drop_last(), c)
    }
}

/// The last position of `c` in `s`.
pub fn last_index_of_exec(s: &[char], c: char) -> (r: Option<usize>)
    ensures
        match r {
            Some(k) => last_index_of(s@, c) == Some(k as int),
            None => last_index_of(s@, c) is None,
        },
{
    let mut i: usize = s.len();
    assert(s@.take(i as int) =~= s@);
    while i > 0
        invariant
            i <= s.len(),
            last_index_of(s@, c) == last_index_of(s@.take(i as int), c),
        decreases i,
    {
        assert(s@.take(i as int).drop_last() =~= s@.take(i - 1));
        if s[i - 1] == c {
            return Some(i - 1);
        }
        i = i - 1;
    }
    None
}

/// Searching a suffix of `s` finds what searching `s` from the suffix's
/// start finds, shifted.
pub proof fn lemma_find_from_shift(s: Seq<char>, p: Seq<char>, start: int, j: int)
    requires
        0 <= start <= s.len(),
        0 <= j,
    ensures
        find_from(s.skip(start), p, j) == match find_from(s, p, j + start) {
            Some(k) => Some(k - start),
            None => None::<int>,
        },
    decreases s.len() + 1 - (j + start),
{
    let t = s.skip(start);
    if j + p.len() > t.len() {
    } else {
        assert(t.subrange(j, j + p.len()) =~= s.subrange(j + start, j + start + p.len()));
        if !occurs_at(t, p, j) {
            lemma_find_from_shift(s, p, start, j + 1);
            assert(j + 1 + start == j + start + 1);
        }
    }
}

/// `s` cut at every `c`, as `str::split(c)` cuts it: the parts between
/// the separators, including empty ones.
pub open spec fn split_on(s: Seq<char>, c: char) -> Seq<Seq<char>>
    decreases s.len(),
{
    match find_from(s, seq![c], 0) {
        None => seq![s],
        Some(k) => {
            proof {
                lemma_find_from(s, seq![c], 0);
            }
            seq![s.take(k)] + split_on(s.skip(k + 1), c)
        },
    }
}

/// The character sequences of a list of character vectors.
pub open spec fn chars_seqs(s: Seq<Vec<char>>) -> Seq<Seq<char>> {
    s.map_values(|v: Vec<char>| v@)
}

/// `chars` cut at every `c` (see `split_on`).
pub fn split_char(chars: &[char], c: char) -> (r: Vec<Vec<char>>)
    ensures
        chars_seqs(r@) == split_on(chars@, c),
{
    let sep = vec![c];
    assert(sep@ =~= seq![c]);
    let mut out: Vec<Vec<char>> = Vec::new();
    let mut start: usize = 0;
    assert(chars_seqs(out@) + split_on(chars@.skip(0), c) =~= split_on(chars@, c)) by {
        assert(chars@.skip(0) =~= chars@);
    }
    let mut done = false;
    while !done
        invariant
            start <= chars.len(),
            sep@ == seq![c],
            !done ==> chars_seqs(out@) + split_on(chars@.skip(start as int), c) == split_on(
                chars@,
                c,
            ),
            done ==> chars_seqs(out@) == split_on(chars@, c),
        decreases (if done { 0 } else { chars.len() + 1 - start }),
    {
        let ghost rest = chars@.skip(start as int);
        let found = find_chars(chars, sep.as_slice(), start);
        proof {
            lemma_find_from(chars@, seq![c], start as int);
            lemma_find_from_shift(chars@, seq![c], start as int, 0);
        }
        let end = match found {
            Some(k) => k,
            None => chars.len(),
        };
        let mut part: Vec<char> = Vec::new();
        let mut i: usize = start;
        while i < end
            invariant
                start <= i <= end <= chars.len(),
                part@ =~= chars@.subrange(start as int, i as int),
            decreases end - i,
        {
            part.push(chars[i]);
            i = i + 1;
        }
        let ghost prev = chars_seqs(out@);
        out.push(part);
        assert(chars_seqs(out@) =~= prev.push(part@));
        match found {
            Some(k) => {
                assert(rest.take(k - start) =~= part@);
                assert(rest.skip(k - start + 1) =~= chars@.skip(k + 1));
                assert(prev + split_on(rest, c) =~= chars_seqs(out@) + split_on(
                    chars@.skip(k + 1),
                    c,
                ));
                start = k + 1;
            },
            None => {
                assert(rest =~= part@);
                assert(chars_seqs(out@) =~= prev + seq![rest]);
                done = true;
            },
        }
    }
    out
}

} // verus!
