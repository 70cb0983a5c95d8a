//! Base64 (the standard alphabet, padded) and UTF-8 decoding.
use vstd::prelude::*;

verus! {

/// The standard base64 text of the UTF-8 bytes of `text`.
pub uninterp spec fn base64_of_text(text: Seq<char>) -> Seq<char>;

/// What standard base64 decoding makes of `text`: the bytes, or the error's message.
pub uninterp spec fn base64_decoded(text: Seq<char>) -> Result<Seq<u8>, Seq<char>>;

/// What `std::str::from_utf8` makes of `bytes`: the text, or the error's message.
pub uninterp spec fn utf8_decoded(bytes: Seq<u8>) -> Result<Seq<char>, Seq<char>>;

/// `base64::engine::general_purpose::STANDARD.encode(text.as_bytes())`; the result is a
/// function of `text` alone (`base64_of_text`). Decoding it with the same engine gives the
/// bytes back (the crate's documented round trip), and those bytes, being the UTF-8 of a
/// `str`, decode with `std::str::from_utf8` to the text itself.
#[verifier::external_body]
pub(crate) fn base64_encode_text(text: &str) -> (r: String)
    ensures
        r@ == base64_of_text(text@),
        base64_decoded(r@) is Ok,
        utf8_decoded(base64_decoded(r@)->Ok_0) is Ok,
        utf8_decoded(base64_decoded(r@)->Ok_0)->Ok_0 == text@,
{
    base64::Engine::encode(&base64::engine::general_purpose::STANDARD, text.as_bytes())
}

/// `base64::engine::general_purpose::STANDARD.decode(text)`; the outcome is a function of
/// `text` alone (`base64_decoded`).
#[verifier::external_body]
pub(crate) fn base64_decode(text: &str) -> (r: Result<Vec<u8>, String>)
    ensures
        match base64_decoded(text@) {
            Ok(b) => r matches Ok(v) && v@ == b,
            Err(m) => r matches Err(e) && e@ == m,
        },
{
    match base64::Engine::decode(&base64::engine::general_purpose::STANDARD, text) {
        Ok(bytes) => Ok(bytes),
        Err(e) => Err(e.to_string()),
    }
}

/// `std::str::from_utf8`, the text owned; the outcome is a function of `bytes` alone
/// (`utf8_decoded`).
#[verifier::external_body]
pub(crate) fn utf8_text(bytes: &[u8]) -> (r: Result<String, String>)
    ensures
        match utf8_decoded(bytes@) {
            Ok(t) => r matches Ok(s) && s@ == t,
            Err(m) => r matches Err(e) && e@ == m,
        },
{
    match std::str::from_utf8(bytes) {
        Ok(s) => Ok(s.to_owned()),
        Err(e) => Err(e.to_string()),
    }
}

} // verus!
