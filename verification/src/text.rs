//! Lossy decoding of raw bytes into text.
//!
//! Input lines and captured subprocess output are raw bytes and need not be
//! valid UTF-8. Where the engine turns such bytes into text — for a pattern
//! split or for a diagnostic message — it decodes them lossily, replacing
//! every invalid UTF-8 sequence. The decoded characters are named by
//! [`lossy_chars_of`]; the decoding itself is left to the standard library.

use vstd::prelude::*;

verus! {

/// The characters that lossy UTF-8 decoding yields for the given bytes:
/// every valid UTF-8 sequence decoded to its characters, every invalid
/// sequence replaced. The result depends on the bytes alone.
pub uninterp spec fn lossy_chars_of(b: Seq<u8>) -> Seq<char>;

/// Relies on `String::from_utf8_lossy`: the decoding is a pure function of
/// the bytes, with each invalid UTF-8 sequence replaced by the replacement
/// character.
#[verifier::external_body]
pub(crate) fn bytes_to_string_lossy(b: &[u8]) -> (r: String)
    ensures
        r@ == lossy_chars_of(b@),
{
    String::from_utf8_lossy(b).into_owned()
}

} // verus!
