//! Turning raw socket bytes into a decoded message blob.
//!
//! The reader delivers whole fixed-size chunks, so a message arrives padded
//! with null bytes. Decoding strips every padding byte and then insists the
//! rest is valid UTF-8; anything else is a decoding error, never a panic.

use vstd::prelude::*;

use crate::bytes::{remove_nuls, without_nuls};
use crate::error::{Error, HandleConnectionError, SpecError, SpecHandleConnectionError};

verus! {

/// What decoding raw bytes returns, for every input: the padding-free bytes
/// when they are valid UTF-8, a decoding error otherwise.
pub open spec fn spec_decode(raw: Seq<u8>) -> Result<Seq<u8>, SpecError> {
    let cleaned = without_nuls(raw);
    if vstd::utf8::valid_utf8(cleaned) {
        Ok(cleaned)
    } else {
        Err(SpecError::HandleConnection(SpecHandleConnectionError::FormatUtf8Error))
    }
}

/// Relies on `core::str::from_utf8`: it returns `Ok` exactly on the byte
/// sequences that are valid UTF-8.
#[verifier::external_body]
fn utf8_check(bytes: &[u8]) -> (r: bool)
    ensures
        r == vstd::utf8::valid_utf8(bytes@),
{
    core::str::from_utf8(bytes).is_ok()
}

/// Strips padding bytes and checks the byte encoding, as `spec_decode`
/// describes.
pub fn decode_message(raw: &[u8]) -> (r: Result<Vec<u8>, Error>)
    ensures
        match r {
            Ok(v) => spec_decode(raw@) == Ok::<Seq<u8>, SpecError>(v@),
            Err(e) => spec_decode(raw@) == Err::<Seq<u8>, SpecError>(e@),
        },
{
    let cleaned = remove_nuls(raw);
    if utf8_check(cleaned.as_slice()) {
        Ok(cleaned)
    } else {
        Err(Error::HandleConnection(HandleConnectionError::FormatUtf8Error))
    }
}

} // verus!
