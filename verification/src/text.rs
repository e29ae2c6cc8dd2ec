use vstd::prelude::*;

verus! {

/// The characters that `String::from_utf8_lossy` decodes from a byte
/// sequence: they depend on the bytes alone.
pub uninterp spec fn lossy_of(b: Seq<u8>) -> Seq<char>;

/// Relies on `String::from_utf8_lossy`: the result depends on the bytes
/// alone, and bytes that are valid UTF-8 are decoded unchanged, so a
/// sequence of ASCII bytes decodes to exactly those characters.
#[verifier::external_body]
pub(crate) fn utf8_lossy(b: &[u8]) -> (r: String)
    ensures
        r@ == lossy_of(b@),
        (forall|i: int| 0 <= i < b@.len() ==> b@[i] < 128) ==> r@ == b@.map_values(
            |x: u8| x as char,
        ),
{
    String::from_utf8_lossy(b).to_string()
}

/// The characters that `str::to_lowercase` folds a string to: they
/// depend on the characters alone.
pub uninterp spec fn lower_of(s: Seq<char>) -> Seq<char>;

/// The ASCII lowering of one character.
pub open spec fn ascii_lower_char(c: char) -> char {
    if 'A' <= c && c <= 'Z' {
        (((c as u32) + 32) as u8) as char
    } else {
        c
    }
}

/// Relies on `str::to_lowercase`: the result depends on the characters
/// alone, and each ASCII character lowers to its ASCII lowercase form.
#[verifier::external_body]
pub(crate) fn to_lowercase(s: &str) -> (r: String)
    ensures
        r@ == lower_of(s@),
        (forall|i: int| 0 <= i < s@.len() ==> (s@[i] as u32) < 128) ==> r@ == s@.map_values(
            |c: char| ascii_lower_char(c),
        ),
{
    s.to_lowercase()
}

/// The registrable domain (effective TLD plus one label) that the
/// bundled public-suffix list snapshot assigns to a name, if any.
pub uninterp spec fn etld_of(s: Seq<char>) -> Option<Seq<char>>;

/// Relies on `psl::domain_str`: the registrable domain depends on the
/// name and the bundled list snapshot alone.
#[verifier::external_body]
pub(crate) fn etld_plus_one(s: &str) -> (r: Option<String>)
    ensures
        match r {
            Some(d) => etld_of(s@) == Some(d@),
            None => etld_of(s@) is None,
        },
{
    match psl::domain_str(s) {
        Some(d) => Some(d.to_string()),
        None => None,
    }
}

/// The Shannon entropy of a string's bytes, as the raw bits of the
/// IEEE-754 single-precision value.
pub uninterp spec fn entropy_bits_of(s: Seq<char>) -> u32;

/// Relies on `entropy::shannon_entropy`: the value depends on the bytes
/// alone; the library carries it as raw bits and never interprets it.
#[verifier::external_body]
pub(crate) fn shannon_entropy_bits(s: &str) -> (r: u32)
    ensures
        r == entropy_bits_of(s@),
{
    entropy::shannon_entropy(s.as_bytes()).to_bits()
}

/// Relies on `chrono::Utc::now`: the result depends on the clock, so
/// nothing is promised of it.
#[verifier::external_body]
pub(crate) fn now_micros() -> i64 {
    chrono::Utc::now().timestamp_micros()
}

} // verus!
