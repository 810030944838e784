//! Decoding extracted bytes as UTF-8 text.
//!
//! The artifact the pipeline recovers is required to be text; bytes that are
//! not valid UTF-8 are a decoding failure of their own, never silently
//! truncated or replaced.

use vstd::prelude::*;
use vstd::utf8::{decode_utf8, valid_utf8};

use crate::errors::{ExtractError, Stage};

verus! {

/// Relies on `String::from_utf8` (std): it succeeds on exactly the byte
/// strings that are valid UTF-8, and then returns their decoding.  Both
/// sides are stated over vstd's UTF-8 model.
#[verifier::external_body]
pub(crate) fn utf8_to_string(bytes: &[u8]) -> (r: Option<String>)
    ensures
        r matches Some(_) <==> valid_utf8(bytes@),
        r matches Some(text) ==> text@ == decode_utf8(bytes@),
{
    String::from_utf8(bytes.to_vec()).ok()
}

/// What decoding the artifact's bytes must yield: their UTF-8 reading, or a
/// decode failure at the text stage.
pub open spec fn spec_decode_text(bytes: Seq<u8>) -> Result<Seq<char>, crate::errors::ErrorModel> {
    if valid_utf8(bytes) {
        Ok(decode_utf8(bytes))
    } else {
        Err(crate::errors::ErrorModel::Decode { stage: Stage::Text })
    }
}

/// Decodes the recovered bytes as UTF-8 text, or fails with a decode error.
pub fn decode_text(bytes: &[u8]) -> (r: Result<String, ExtractError>)
    ensures
        match r {
            Ok(text) => spec_decode_text(bytes@) == Ok::<_, crate::errors::ErrorModel>(text@),
            Err(e) => spec_decode_text(bytes@) == Err::<Seq<char>, _>(e@),
        },
{
    match utf8_to_string(bytes) {
        Some(text) => Ok(text),
        None => Err(ExtractError::Decode { stage: Stage::Text }),
    }
}

} // verus!
