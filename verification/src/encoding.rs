//! Base64 in the standard alphabet with padding.

use base64::engine::general_purpose::STANDARD;
use base64::Engine;
use vstd::prelude::*;

verus! {

/// What base64 writes for given bytes.
pub uninterp spec fn base64_text(bytes: Seq<u8>) -> Seq<char>;

/// What base64 reads from a given text: the bytes, or what is wrong with it.
pub uninterp spec fn base64_bytes(text: Seq<char>) -> Result<Seq<u8>, Seq<char>>;

/// Base64 reads `bytes` from `text`.
pub open spec fn reads_as(text: Seq<char>, bytes: Seq<u8>) -> bool {
    base64_bytes(text) == Ok::<Seq<u8>, Seq<char>>(bytes)
}

/// The base64 text of `n` bytes fits a string.
pub open spec fn base64_fits(n: nat) -> bool {
    (n + 2) / 3 * 4 <= isize::MAX
}

/// `base64::Engine::encode` of the standard engine. Its text is a function of the
/// bytes and holds four characters for each three of them, begun ones counted, and
/// decoding it gives the bytes back. The call panics where the text
/// would not fit a string, so such a length is left out.
#[verifier::external_body]
pub(crate) fn base64_encode(bytes: &[u8]) -> (r: String)
    requires
        base64_fits(bytes@.len()),
    ensures
        r@ == base64_text(bytes@),
        r@.len() == (bytes@.len() + 2) / 3 * 4,
        reads_as(r@, bytes@),
{
    STANDARD.encode(bytes)
}

/// `base64::Engine::decode` of the standard engine, with the error as its message.
/// What it returns is a function of the text.
#[verifier::external_body]
pub(crate) fn base64_decode(text: &str) -> (r: Result<Vec<u8>, String>)
    ensures
        match r {
            Ok(bytes) => base64_bytes(text@) matches Ok(b) && b == bytes@,
            Err(message) => base64_bytes(text@) matches Err(m) && m == message@,
        },
{
    STANDARD.decode(text.as_bytes()).map_err(|e| e.to_string())
}

} // verus!
