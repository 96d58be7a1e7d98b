//! Unpadded URL-safe base64 text, through the `base64` crate.

use vstd::prelude::*;
use base64::Engine;
use base64::engine::general_purpose::URL_SAFE_NO_PAD;

verus! {

#[verifier::external_type_specification]
#[verifier::external_body]
pub struct ExDecodeError(base64::DecodeError);

/// The unpadded URL-safe base64 text of `bytes`.
pub uninterp spec fn base64_text(bytes: Seq<u8>) -> Seq<char>;

/// The bytes that `text` stands for in unpadded URL-safe base64, if it is
/// such a text.
pub uninterp spec fn base64_bytes(text: Seq<char>) -> Option<Seq<u8>>;

/// Relies on `Engine::encode_string` of `URL_SAFE_NO_PAD`: it appends to
/// `out` the unpadded URL-safe base64 text of `bytes`, which depends on the
/// bytes alone, has one character per six bits rounded up, and decodes back
/// to `bytes` under the same engine.
#[verifier::external_body]
pub(crate) fn append_base64(bytes: &[u8], out: &mut String)
    ensures
        final(out)@ == old(out)@ + base64_text(bytes@),
        final(out)@.len() == old(out)@.len() + (4 * bytes@.len() + 2) / 3,
        base64_bytes(final(out)@.skip(old(out)@.len() as int)) == Some(bytes@),
{
    URL_SAFE_NO_PAD.encode_string(bytes, out)
}

/// Relies on `Engine::decode` of `URL_SAFE_NO_PAD`: the bytes that `text`
/// stands for, or an error when it is no unpadded URL-safe base64; the
/// outcome depends on the text alone.
#[verifier::external_body]
pub(crate) fn decode_base64(text: &str) -> (r: Result<Vec<u8>, base64::DecodeError>)
    ensures
        match r {
            Ok(v) => base64_bytes(text@) == Some(v@),
            Err(_) => base64_bytes(text@) is None,
        },
{
    URL_SAFE_NO_PAD.decode(text)
}

/// Relies on `String::push`: appends one character.
#[verifier::external_body]
pub(crate) fn push_char(s: &mut String, c: char)
    ensures
        final(s)@ == old(s)@.push(c),
{
    s.push(c)
}

} // verus!
