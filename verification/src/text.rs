//! Text out of bytes that may not be well-formed UTF-8.

use vstd::prelude::*;

verus! {

/// What lossy UTF-8 decoding makes of `bytes`: the text itself where the
/// bytes are well-formed, and otherwise the text with U+FFFD in place of
/// every ill-formed stretch.
pub uninterp spec fn utf8_lossy_text(bytes: Seq<u8>) -> Seq<char>;

/// Calls `String::from_utf8_lossy` and takes ownership of what it returns.
/// Trusted: the text is a function of the bytes alone; nothing is claimed
/// about which text it is.
#[verifier::external_body]
pub(crate) fn decode_utf8_lossy(bytes: &[u8]) -> (text: String)
    ensures
        text@ == utf8_lossy_text(bytes@),
{
    String::from_utf8_lossy(bytes).into_owned()
}

} // verus!
