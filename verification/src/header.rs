//! Header values of the control API: which texts can stand in one, and what
//! text one holds.

use tonic::metadata::{Ascii, MetadataValue};
use vstd::prelude::*;
use vstd::utf8::encode_utf8;

verus! {

/// Whether a byte can stand in a header value.
pub open spec fn header_byte(b: u8) -> bool {
    b >= 32 && b != 127 || b == 9
}

/// Whether a byte can stand in a header value that is read as text.
pub open spec fn visible_byte(b: u8) -> bool {
    32 <= b < 127 || b == 9
}

/// Whether a text can stand in a header value.
pub open spec fn is_header(text: Seq<char>) -> bool {
    forall|i: int|
        0 <= i < encode_utf8(text).len() ==> header_byte(#[trigger] encode_utf8(text)[i])
}

/// The text that a header value holds, unless it cannot be read as text.
pub open spec fn text_in(bytes: Seq<u8>) -> Option<Seq<char>> {
    if forall|i: int| 0 <= i < bytes.len() ==> visible_byte(#[trigger] bytes[i]) {
        Some(Seq::new(bytes.len(), |i: int| bytes[i] as char))
    } else {
        None
    }
}

/// Parsing a text as tonic's `MetadataValue<Ascii>` succeeds when no byte of
/// its UTF-8 form is a control character, tabs aside; the value then holds
/// those bytes.
#[verifier::external_body]
pub(crate) fn parse_header(text: &str) -> (value: Option<Vec<u8>>)
    ensures
        value is Some <==> is_header(text@),
        value matches Some(bytes) ==> bytes@ == encode_utf8(text@),
{
    let value: Result<MetadataValue<Ascii>, _> = text.parse();
    value.ok().map(|v| v.as_encoded_bytes().to_vec())
}

/// `MetadataValue<Ascii>::to_str` of tonic gives a header value's bytes as
/// text when all of them are visible ASCII characters or tabs.
#[verifier::external_body]
pub(crate) fn header_text(bytes: &[u8]) -> (text: Option<String>)
    ensures
        text is Some <==> text_in(bytes@) is Some,
        text matches Some(t) ==> text_in(bytes@) == Some(t@),
{
    let value: MetadataValue<Ascii> = MetadataValue::try_from(bytes).ok()?;
    value.to_str().ok().map(|s| s.to_owned())
}

} // verus!
