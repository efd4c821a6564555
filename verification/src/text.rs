//! The two places where the library leans on the standard library's handling of
//! text: turning the bytes of a diagnostic log into a string, and testing a name
//! for a suffix.
use vstd::prelude::*;

verus! {

/// The text that `String::from_utf8_lossy` makes of `bytes`: the characters that
/// the bytes encode, with U+FFFD in place of whatever is not valid UTF-8.
pub uninterp spec fn utf8_lossy(bytes: Seq<u8>) -> Seq<char>;

/// Decodes `bytes` with `String::from_utf8_lossy` and owns the result. Nothing
/// is proved of the decoding itself: the contract only says that the result is
/// the one function [`utf8_lossy`] of the bytes.
#[verifier::external_body]
pub(crate) fn decode_lossy(bytes: &[u8]) -> (text: String)
    ensures
        text@ == utf8_lossy(bytes@),
{
    String::from_utf8_lossy(bytes).into_owned()
}

/// Tests with `str::ends_with` whether `text` ends in `suffix`. The contract
/// states the documented result over the characters of the two strings.
#[verifier::external_body]
pub(crate) fn ends_with(text: &str, suffix: &str) -> (found: bool)
    ensures
        found == suffix@.is_suffix_of(text@),
{
    text.ends_with(suffix)
}

} // verus!
