//! Text building blocks: decimal and UUID renderings, and the handful of
//! string primitives the rest of the library composes messages from.

use vstd::prelude::*;

verus! {

/// The ASCII digit for `d`, which must be below ten.
pub open spec fn digit_char(d: nat) -> char {
    if d == 0 { '0' }
    else if d == 1 { '1' }
    else if d == 2 { '2' }
    else if d == 3 { '3' }
    else if d == 4 { '4' }
    else if d == 5 { '5' }
    else if d == 6 { '6' }
    else if d == 7 { '7' }
    else if d == 8 { '8' }
    else { '9' }
}

/// Base-ten rendering of a natural number, most significant digit first,
/// with no sign and no leading zeros.
pub open spec fn decimal(n: nat) -> Seq<char>
    decreases n,
{
    if n < 10 {
        seq![digit_char(n)]
    } else {
        decimal(n / 10).push(digit_char(n % 10))
    }
}

/// Renders `n` in base ten.
///
/// Calls `u128::to_string`, whose `Display` writes the digits with no sign,
/// padding or separators.
#[verifier::external_body]
pub(crate) fn decimal_text(n: u128) -> (r: String)
    ensures
        r@ == decimal(n as nat),
{
    n.to_string()
}


/// The lowercase hexadecimal digit for `d`, which must be below sixteen.
pub open spec fn hex_char(d: nat) -> char {
    if d < 10 { digit_char(d) }
    else if d == 10 { 'a' }
    else if d == 11 { 'b' }
    else if d == 12 { 'c' }
    else if d == 13 { 'd' }
    else if d == 14 { 'e' }
    else { 'f' }
}

/// The last `count` hexadecimal digits of `v`, zero-padded, most significant first.
pub open spec fn hex_digits(v: nat, count: nat) -> Seq<char>
    decreases count,
{
    if count == 0 {
        Seq::empty()
    } else {
        hex_digits(v / 16, (count - 1) as nat).push(hex_char(v % 16))
    }
}

/// The hyphenated lowercase form of a UUID whose big-endian value is `v`:
/// thirty-two hex digits grouped 8-4-4-4-12.
pub open spec fn uuid_hyphenated(v: u128) -> Seq<char> {
    let h = hex_digits(v as nat, 32);
    h.subrange(0, 8) + seq!['-'] + h.subrange(8, 12) + seq!['-'] + h.subrange(12, 16)
        + seq!['-'] + h.subrange(16, 20) + seq!['-'] + h.subrange(20, 32)
}

/// Renders the UUID whose big-endian value is `id`.
///
/// Calls `uuid::Uuid::from_u128` and the crate's `Display` impl, which writes
/// the hyphenated lowercase form; the contract claims exactly that form.
#[verifier::external_body]
pub(crate) fn uuid_text(id: u128) -> (r: String)
    ensures
        r@ == uuid_hyphenated(id),
{
    uuid::Uuid::from_u128(id).to_string()
}

/// A fresh random identifier.
///
/// Calls `uuid::Uuid::new_v4` and reads it back with `as_u128`. The value is
/// random; the contract states only the version nibble (4) and the RFC 4122
/// variant bits (`10`), which the crate sets on every value it returns.
#[verifier::external_body]
pub(crate) fn new_v4_id() -> (r: u128)
    ensures
        (r >> 76u128) & 0xfu128 == 4u128,
        (r >> 62u128) & 0x3u128 == 2u128,
{
    uuid::Uuid::new_v4().as_u128()
}

/// Unicode `White_Space`, the set `char::is_whitespace` and `str::trim` use.
pub open spec fn is_white_space(c: char) -> bool {
    let u = c as u32;
    (0x9 <= u <= 0xd) || u == 0x20 || u == 0x85 || u == 0xa0 || u == 0x1680
        || (0x2000 <= u <= 0x200a) || u == 0x2028 || u == 0x2029 || u == 0x202f
        || u == 0x205f || u == 0x3000
}

/// `s` with every leading white-space character removed.
pub open spec fn trim_start_spec(s: Seq<char>) -> Seq<char>
    decreases s.len(),
{
    if s.len() > 0 && is_white_space(s[0]) {
        trim_start_spec(s.drop_first())
    } else {
        s
    }
}

/// `s` with every trailing character satisfying `p` removed.
pub open spec fn trim_end_by(s: Seq<char>, p: spec_fn(char) -> bool) -> Seq<char>
    decreases s.len(),
{
    if s.len() > 0 && p(s.last()) {
        trim_end_by(s.drop_last(), p)
    } else {
        s
    }
}

/// `s` with leading and trailing white space removed.
pub open spec fn trim_spec(s: Seq<char>) -> Seq<char> {
    trim_end_by(trim_start_spec(s), |c: char| is_white_space(c))
}

/// Removes leading and trailing white space.
///
/// Calls `str::trim`, documented to strip characters with the Unicode
/// `White_Space` property from both ends; the contract claims that.
#[verifier::external_body]
pub(crate) fn trim(s: &str) -> (r: &str)
    ensures
        r@ == trim_spec(s@),
{
    s.trim()
}

/// Removes every trailing `/`.
///
/// Calls `str::trim_end_matches('/')`, documented to remove all suffixes that
/// match the pattern, repeatedly; the contract claims that.
#[verifier::external_body]
pub(crate) fn trim_trailing_slashes(s: &str) -> (r: &str)
    ensures
        r@ == trim_end_by(s@, |c: char| c == '/'),
{
    s.trim_end_matches('/')
}

/// The ASCII lowercase of `c`; every other character is unchanged.
pub open spec fn ascii_lower(c: char) -> char {
    if 'A' <= c <= 'Z' {
        ((c as u32) + 32) as char
    } else {
        c
    }
}

/// Lowercases the ASCII letters of `s`.
///
/// Calls `str::to_ascii_lowercase`, documented to map `'A'..='Z'` to
/// `'a'..='z'` and leave every other character unchanged.
#[verifier::external_body]
pub(crate) fn to_ascii_lowercase(s: &str) -> (r: String)
    ensures
        r@ == s@.map_values(|c: char| ascii_lower(c)),
{
    s.to_ascii_lowercase()
}

/// Whether `s` holds the character `c`.
pub(crate) fn contains_char(s: &str, c: char) -> (r: bool)
    ensures
        r == s@.contains(c),
{
    broadcast use vstd::string::axiom_spec_iter;
    let mut found = false;
    for x in it: s.chars()
        invariant
            it.seq() == s@,
            found <==> exists|j: int| 0 <= j < it.index() && s@[j] == c,
    {
        if x == c {
            found = true;
        }
    }
    found
}

/// The value of a string of ASCII digits, read in base ten.
pub open spec fn digits_value(s: Seq<char>) -> nat
    decreases s.len(),
{
    if s.len() == 0 {
        0
    } else {
        digits_value(s.drop_last()) * 10 + ((s.last() as u32) - ('0' as u32)) as nat
    }
}

/// Whether every character of `s` is an ASCII digit.
pub open spec fn all_digits(s: Seq<char>) -> bool {
    forall|i: int| 0 <= i < s.len() ==> '0' <= #[trigger] s[i] <= '9'
}

/// What `u64::from_str` and `usize::from_str` read from `s`: an optional `+`
/// then at least one ASCII digit, nothing else; `None` when that shape is
/// missing. The value may still be out of range for the target type.
pub open spec fn unsigned_literal(s: Seq<char>) -> Option<nat> {
    let body = if s.len() > 0 && s[0] == '+' { s.drop_first() } else { s };
    if body.len() > 0 && all_digits(body) {
        Some(digits_value(body))
    } else {
        None
    }
}

/// Parses a `u64`.
///
/// Calls `str::parse::<u64>`; `u64::from_str_radix` documents the accepted
/// shape (an optional `+`, then digits only) and fails on overflow.
#[verifier::external_body]
pub(crate) fn parse_u64(s: &str) -> (r: Option<u64>)
    ensures
        r matches Some(n) ==> unsigned_literal(s@) == Some(n as nat),
        r is None ==> (unsigned_literal(s@) is None || unsigned_literal(s@).unwrap() > u64::MAX),
{
    s.parse::<u64>().ok()
}

/// Parses a `usize`; the same shape as `parse_u64`, bounded by `usize::MAX`.
#[verifier::external_body]
pub(crate) fn parse_usize(s: &str) -> (r: Option<usize>)
    ensures
        r matches Some(n) ==> unsigned_literal(s@) == Some(n as nat),
        r is None ==> (unsigned_literal(s@) is None || unsigned_literal(s@).unwrap() > usize::MAX),
{
    s.parse::<usize>().ok()
}

/// The `Debug` rendering of a string slice: the text in double quotes, with
/// `Debug` escapes applied.
pub uninterp spec fn str_debug(s: Seq<char>) -> Seq<char>;

/// Renders `s` as `{:?}` does.
///
/// Calls `format!("{:?}", s)`, the `Debug` impl of `str`; its escaping rules
/// are left to the name `str_debug`.
#[verifier::external_body]
pub(crate) fn debug_text(s: &str) -> (r: String)
    ensures
        r@ == str_debug(s@),
{
    format!("{:?}", s)
}

} // verus!
