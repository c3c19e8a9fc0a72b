//! Raw bytes from files, commands and path names, as text.

use vstd::prelude::*;
use vstd::utf8::{decode_utf8, valid_utf8};

verus! {

/// The text that `String::from_utf8_lossy` makes of `bytes`.
pub uninterp spec fn utf8_lossy(bytes: Seq<u8>) -> Seq<char>;

/// Well-formed UTF-8 is decoded as it stands, and of anything else the text
/// shows by a replacement character that it was not.
pub open spec fn faithful(bytes: Seq<u8>) -> bool {
    &&& valid_utf8(bytes) ==> utf8_lossy(bytes) == decode_utf8(bytes)
    &&& !valid_utf8(bytes) ==> utf8_lossy(bytes).contains('\u{FFFD}')
}

/// Calls `String::from_utf8_lossy`. Its result depends on the bytes alone:
/// well-formed UTF-8 is decoded as it stands, and in anything else each
/// malformed stretch becomes the replacement character, so that one occurs.
#[verifier::external_body]
pub(crate) fn lossy_text(bytes: &[u8]) -> (r: String)
    ensures
        r@ == utf8_lossy(bytes@),
        valid_utf8(bytes@) ==> r@ == decode_utf8(bytes@),
        !valid_utf8(bytes@) ==> r@.contains('\u{FFFD}'),
{
    String::from_utf8_lossy(bytes).into_owned()
}

/// Calls `String::from_utf8`, which decodes well-formed UTF-8 and rejects
/// anything else.
#[verifier::external_body]
pub(crate) fn strict_text(bytes: Vec<u8>) -> (r: Option<String>)
    ensures
        r is Some <==> valid_utf8(bytes@),
        r is Some ==> r->0@ == decode_utf8(bytes@),
{
    String::from_utf8(bytes).ok()
}

} // verus!
