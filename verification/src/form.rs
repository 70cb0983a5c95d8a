//! Percent-encoding of form values, through `urlencoding` and `form_urlencoded`.
use vstd::prelude::*;

verus! {

/// A byte `urlencoding::encode` keeps: an ASCII letter or digit, `-`, `.`, `_` or `~`.
pub open spec fn url_safe_byte(b: u8) -> bool {
    (0x30 <= b && b <= 0x39) || (0x41 <= b && b <= 0x5a) || (0x61 <= b && b <= 0x7a) || b == 0x2d || b == 0x2e || b == 0x5f
        || b == 0x7e
}

/// The upper-case hexadecimal digit of a value below sixteen.
pub open spec fn hex_digit_upper(d: u8) -> char {
    if d < 10 {
        (0x30 + d) as char
    } else {
        (0x41 - 10 + d) as char
    }
}

/// One byte as `urlencoding::encode` writes it: kept when safe, else `%XX` in upper case.
pub open spec fn percent_byte(b: u8) -> Seq<char> {
    if url_safe_byte(b) {
        seq![b as char]
    } else {
        seq!['%', hex_digit_upper(b / 16), hex_digit_upper(b % 16)]
    }
}

/// Each byte as `urlencoding::encode` writes it, in order.
pub open spec fn percent_encoded(bytes: Seq<u8>) -> Seq<char>
    decreases bytes.len(),
{
    if bytes.len() == 0 {
        Seq::empty()
    } else {
        percent_encoded(bytes.drop_last()) + percent_byte(bytes.last())
    }
}

/// The text `urlencoding::encode` makes of `s`: each byte of its UTF-8 encoding, kept when it
/// is an ASCII letter or digit, `-`, `.`, `_` or `~`, else written `%XX` in upper case.
pub open spec fn url_encoded(s: Seq<char>) -> Seq<char> {
    percent_encoded(vstd::utf8::encode_utf8(s))
}

/// What `urlencoding::decode` makes of `s`: the decoded text, or the error's message.
pub uninterp spec fn url_decoded(s: Seq<char>) -> Result<Seq<char>, Seq<char>>;

/// The (name, value) pairs `url::form_urlencoded::parse` reads from `body`, in order.
pub uninterp spec fn form_decoded(body: Seq<u8>) -> Seq<(Seq<char>, Seq<char>)>;

/// The pairs of a list of (name, value) strings, as character sequences.
pub open spec fn string_pairs_view(pairs: Seq<(String, String)>) -> Seq<(Seq<char>, Seq<char>)> {
    Seq::new(pairs.len(), |i: int| (pairs[i].0@, pairs[i].1@))
}

/// `urlencoding::encode`: percent-encodes every byte of the UTF-8 text but ASCII letters,
/// digits and `-`, `_`, `.`, `~`, with upper-case hex digits (see `url_encoded`).
#[verifier::external_body]
pub(crate) fn url_encode(s: &str) -> (r: String)
    ensures
        r@ == url_encoded(s@),
{
    urlencoding::encode(s).into_owned()
}

/// `urlencoding::decode`: decodes `%XX` escapes (a `+` is kept as it is); fails when the
/// decoded bytes are not UTF-8. The outcome is a function of `s` alone (`url_decoded`).
#[verifier::external_body]
pub(crate) fn url_decode(s: &str) -> (r: Result<String, String>)
    ensures
        match url_decoded(s@) {
            Ok(t) => r matches Ok(v) && v@ == t,
            Err(m) => r matches Err(e) && e@ == m,
        },
{
    match urlencoding::decode(s) {
        Ok(v) => Ok(v.into_owned()),
        Err(e) => Err(e.to_string()),
    }
}

/// `url::form_urlencoded::parse`: the `name=value` pairs of an
/// `application/x-www-form-urlencoded` body, decoded, in order (`form_decoded`).
#[verifier::external_body]
pub(crate) fn form_pairs(body: &[u8]) -> (r: Vec<(String, String)>)
    ensures
        string_pairs_view(r@) == form_decoded(body@),
{
    url::form_urlencoded::parse(body).map(|(k, v)| (k.into_owned(), v.into_owned())).collect()
}

} // verus!
