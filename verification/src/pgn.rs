//! Header values of game records, which the library decodes with the
//! `pgn-reader` crate.

use pgn_reader::RawHeader;
use vstd::prelude::*;

verus! {

/// The text that the raw bytes of a header value stand for, once the
/// backslash escapes of the record format are taken out, or `None` where
/// what is left is not valid UTF-8.
pub uninterp spec fn decoded_header(raw: Seq<u8>) -> Option<Seq<char>>;

/// `RawHeader::decode_utf8`: unescapes the value of a header and reads it as
/// UTF-8.
#[verifier::external_body]
pub(crate) fn decode_header(raw: &[u8]) -> (r: Option<String>)
    ensures
        r is Some <==> decoded_header(raw@) is Some,
        r matches Some(text) ==> decoded_header(raw@) == Some(text@),
{
    match RawHeader(raw).decode_utf8() {
        Ok(text) => Some(text.into_owned()),
        Err(_) => None,
    }
}

} // verus!
