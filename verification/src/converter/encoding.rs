//! Base64 decoding through the `base64` crate's general-purpose engines,
//! and lossy UTF-8 decoding.
use vstd::prelude::*;
use crate::text::{trim, trim_str, string_of};
use base64::Engine;
use base64::engine::general_purpose;

verus! {

/// The four general-purpose engines of the `base64` crate.
#[derive(Debug, Clone, Copy, PartialEq, Eq, Structural)]
pub enum Base64Engine {
    UrlSafeNoPad,
    UrlSafe,
    StandardNoPad,
    Standard,
}

/// What `Engine::decode` of `engine` gives for `input`: the bytes, or
/// `None` when it reports a decode error.
pub uninterp spec fn base64_decoded(engine: Base64Engine, input: Seq<char>) -> Option<Seq<u8>>;

/// The characters `String::from_utf8_lossy` gives for `bytes`.
pub uninterp spec fn utf8_lossy(bytes: Seq<u8>) -> Seq<char>;

/// View of an optional byte vector.
pub open spec fn opt_bytes(o: Option<Vec<u8>>) -> Option<Seq<u8>> {
    match o {
        Some(b) => Some(b@),
        None => None,
    }
}

/// Calls `Engine::decode` of the chosen general-purpose engine on the
/// bytes of `input`, the error mapped to `None`; the result is named.
#[verifier::external_body]
fn engine_decode(engine: Base64Engine, input: &str) -> (r: Option<Vec<u8>>)
    ensures
        opt_bytes(r) == base64_decoded(engine, input@),
{
    match engine {
        Base64Engine::UrlSafeNoPad => general_purpose::URL_SAFE_NO_PAD.decode(input).ok(),
        Base64Engine::UrlSafe => general_purpose::URL_SAFE.decode(input).ok(),
        Base64Engine::StandardNoPad => general_purpose::STANDARD_NO_PAD.decode(input).ok(),
        Base64Engine::Standard => general_purpose::STANDARD.decode(input).ok(),
    }
}

/// Calls `String::from_utf8_lossy`; the result is named.
#[verifier::external_body]
pub(crate) fn lossy_string(bytes: &[u8]) -> (r: String)
    ensures
        r@ == utf8_lossy(bytes@),
{
    String::from_utf8_lossy(bytes).into_owned()
}

/// Lenient base64: the trimmed input decoded by the first engine that
/// accepts it, in the order URL-safe unpadded, URL-safe, standard
/// unpadded, standard.
pub open spec fn decoded_base64(input: Seq<char>) -> Option<Seq<u8>> {
    let clean = trim(input);
    match base64_decoded(Base64Engine::UrlSafeNoPad, clean) {
        Some(b) => Some(b),
        None => match base64_decoded(Base64Engine::UrlSafe, clean) {
            Some(b) => Some(b),
            None => match base64_decoded(Base64Engine::StandardNoPad, clean) {
                Some(b) => Some(b),
                None => base64_decoded(Base64Engine::Standard, clean),
            },
        },
    }
}

/// The error text of a failed lenient base64 decode.
pub open spec fn base64_error() -> Seq<char> {
    "Failed to decode base64"@
}

/// Decodes base64 text leniently: trims it, then tries the URL-safe and
/// standard alphabets, each unpadded first and padded second.
pub fn decode_base64(input: &str) -> (r: Result<Vec<u8>, String>)
    ensures
        match r {
            Ok(b) => decoded_base64(input@) == Some(b@),
            Err(e) => decoded_base64(input@) is None && e@ == base64_error(),
        },
{
    let clean_chars = trim_str(input);
    let clean = string_of(&clean_chars);
    let s = clean.as_str();
    if let Some(b) = engine_decode(Base64Engine::UrlSafeNoPad, s) {
        return Ok(b);
    }
    if let Some(b) = engine_decode(Base64Engine::UrlSafe, s) {
        return Ok(b);
    }
    if let Some(b) = engine_decode(Base64Engine::StandardNoPad, s) {
        return Ok(b);
    }
    if let Some(b) = engine_decode(Base64Engine::Standard, s) {
        return Ok(b);
    }
    Err(String::from_str("Failed to decode base64"))
}

} // verus!
