//! Decompressing the embedded XZ stream.
//!
//! The member recovered from the container is an XZ-compressed tar stream.
//! Decompression is performed eagerly and fully in memory — the artifacts
//! are package-scale, not streaming-scale — and a codec failure is a decode
//! error of its own stage.

use vstd::prelude::*;

use crate::errors::{ExtractError, Stage};

verus! {

/// What the XZ codec makes of `bytes`: the fully decompressed stream, or
/// nothing if `bytes` is not a valid XZ stream.
pub uninterp spec fn xz_decoded(bytes: Seq<u8>) -> Option<Seq<u8>>;

/// Relies on `lzma_rs::xz_decompress`: it fills the output with the
/// complete decompressed stream, or fails exactly when the input is not
/// valid XZ data.  The result depends on the input bytes alone.
#[verifier::external_body]
fn xz_decompress_all(bytes: &[u8]) -> (r: Option<Vec<u8>>)
    ensures
        r matches Some(_) <==> xz_decoded(bytes@) matches Some(_),
        r matches Some(out) ==> xz_decoded(bytes@) == Some(out@),
{
    let mut reader = std::io::BufReader::new(bytes);
    let mut out = Vec::new();
    match lzma_rs::xz_decompress(&mut reader, &mut out) {
        Ok(()) => Some(out),
        Err(_) => None,
    }
}

/// What decompressing `bytes` must yield: the decoded stream, or a decode
/// failure at the decompression stage.
pub open spec fn spec_decompress(bytes: Seq<u8>) -> Result<Seq<u8>, crate::errors::ErrorModel> {
    match xz_decoded(bytes) {
        Some(out) => Ok(out),
        None => Err(crate::errors::ErrorModel::Decode { stage: Stage::Decompress }),
    }
}

/// Decompresses the XZ stream `bytes` wholly into memory.
pub fn decompress(bytes: &[u8]) -> (r: Result<Vec<u8>, ExtractError>)
    ensures
        match r {
            Ok(out) => spec_decompress(bytes@) == Ok::<_, crate::errors::ErrorModel>(out@),
            Err(e) => spec_decompress(bytes@) == Err::<Seq<u8>, _>(e@),
        },
{
    match xz_decompress_all(bytes) {
        Some(out) => Ok(out),
        None => Err(ExtractError::Decode { stage: Stage::Decompress }),
    }
}

} // verus!
