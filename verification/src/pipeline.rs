//! The extraction pipeline: package bytes in, artifact text out.
//!
//! A strict linear sequence of stages — member lookup, decompression, tar
//! walk, bundle lookup, text decoding — each either advancing to the next
//! or terminating the whole call with a typed error naming the stage.
//! There is no retry, partial success or resumption, and no state survives
//! a call: the result is a function of the input bytes and target names
//! alone.
//!
//! The target names — the container member, the file sought in the tar
//! stream, the path sought in the bundle — are parameters of the general
//! entry points; [`extract_from_deb`] and [`extract_from_asar`] fix them
//! to the names this pipeline exists for.

use vstd::prelude::*;
use vstd::utf8::{decode_utf8, valid_utf8};

use crate::bundle::{asar_content_base, asar_index, read_bundle_file, spec_read_bundle_file};
use crate::container::{ar_clean, ar_entries, find_member, first_member_match, spec_find_member};
use crate::decompress::{decompress, spec_decompress, xz_decoded};
use crate::errors::{ErrorModel, ExtractError, Stage};
use crate::paths::components_from;
use crate::tarwalk::{find_tar_file, first_name_match, spec_find_tar_file, tar_clean, tar_entries};
use crate::text::{decode_text, spec_decode_text};

verus! {

/// The result of a pipeline call, reduced to its mathematical shadow.
pub open spec fn text_result_model(r: Result<String, ExtractError>) -> Result<
    Seq<char>,
    ErrorModel,
> {
    match r {
        Ok(text) => Ok(text@),
        Err(e) => Err(e@),
    }
}

/// What extracting the file at `path` from the bundle `bytes` must yield:
/// the indexed file's content decoded as UTF-8, or the first failing
/// stage's error.
pub open spec fn spec_extract_from_asar(bytes: Seq<u8>, path: Seq<char>) -> Result<
    Seq<char>,
    ErrorModel,
> {
    match spec_read_bundle_file(bytes, path) {
        Ok(content) => spec_decode_text(content),
        Err(e) => Err(e),
    }
}

/// What extracting from a whole package must yield: the container member
/// named `member` is located, its XZ stream decompressed, the resulting
/// tar stream walked for the first entry whose file name is `inner`, and
/// the file at `path` read out of that entry's bundle — with the first
/// failing stage's error otherwise.
pub open spec fn spec_extract_from_deb(
    bytes: Seq<u8>,
    member: Seq<char>,
    inner: Seq<char>,
    path: Seq<char>,
) -> Result<Seq<char>, ErrorModel> {
    match spec_find_member(bytes, member) {
        Err(e) => Err(e),
        Ok(compressed) => match spec_decompress(compressed) {
            Err(e) => Err(e),
            Ok(stream) => match spec_find_tar_file(stream, inner) {
                Err(e) => Err(e),
                Ok(inner_bytes) => spec_extract_from_asar(inner_bytes, path),
            },
        },
    }
}

/// Extracts the UTF-8 text of the file at `path` from the application
/// bundle `bytes`.
pub fn extract_bundle_artifact(bytes: &[u8], path: &str) -> (r: Result<String, ExtractError>)
    ensures
        text_result_model(r) == spec_extract_from_asar(bytes@, path@),
{
    let content = match read_bundle_file(bytes, path) {
        Ok(content) => content,
        Err(e) => return Err(e),
    };
    decode_text(content.as_slice())
}

/// Extracts the UTF-8 text of the file at `path` from the package `bytes`:
/// locates the container member named `member`, decompresses it, walks the
/// tar stream for the first entry whose file name is `inner`, and reads
/// `path` out of that entry's bundle.
pub fn extract_package_artifact(bytes: &[u8], member: &str, inner: &str, path: &str) -> (r: Result<
    String,
    ExtractError,
>)
    ensures
        text_result_model(r) == spec_extract_from_deb(bytes@, member@, inner@, path@),
{
    let compressed = match find_member(bytes, member) {
        Ok(compressed) => compressed,
        Err(e) => return Err(e),
    };
    let stream = match decompress(compressed.as_slice()) {
        Ok(stream) => stream,
        Err(e) => return Err(e),
    };
    let inner_bytes = match find_tar_file(stream.as_slice(), inner) {
        Ok(inner_bytes) => inner_bytes,
        Err(e) => return Err(e),
    };
    extract_bundle_artifact(inner_bytes.as_slice(), path)
}

/// Extracts the vendor's DNS fallback list from a Debian-style package:
/// the `data.tar.xz` member's tar stream holds an `app.asar` bundle, whose
/// index lists the artifact under `build/dns-fallback.json`.
pub fn extract_from_deb(bytes: &[u8]) -> (r: Result<String, ExtractError>)
    ensures
        text_result_model(r) == spec_extract_from_deb(
            bytes@,
            "data.tar.xz"@,
            "app.asar"@,
            "build/dns-fallback.json"@,
        ),
{
    extract_package_artifact(bytes, "data.tar.xz", "app.asar", "build/dns-fallback.json")
}

/// Extracts the vendor's DNS fallback list from an application bundle
/// already unwrapped from its package.
pub fn extract_from_asar(bytes: &[u8]) -> (r: Result<String, ExtractError>)
    ensures
        text_result_model(r) == spec_extract_from_asar(bytes@, "build/dns-fallback.json"@),
{
    extract_bundle_artifact(bytes, "build/dns-fallback.json")
}

/// The pipeline is a pure function of its inputs: on identical bytes and
/// identical target names it yields the identical result — which, with
/// [`extract_package_artifact`]'s contract, makes two calls on identical
/// inputs return identical values.
pub proof fn lemma_extract_deterministic(
    b1: Seq<u8>,
    b2: Seq<u8>,
    member: Seq<char>,
    inner: Seq<char>,
    path: Seq<char>,
)
    requires
        b1 == b2,
    ensures
        spec_extract_from_deb(b1, member, inner, path) == spec_extract_from_deb(
            b2,
            member,
            inner,
            path,
        ),
{
}

/// On a valid package — one whose container holds the sought member, whose
/// member decompresses to a tar stream holding an entry with the sought
/// file name, and whose bundle's index locates the sought path inside the
/// bundle with valid UTF-8 content — extraction returns exactly that
/// file's bytes, decoded.
pub proof fn lemma_valid_package_extracts(
    bytes: Seq<u8>,
    member: Seq<char>,
    inner: Seq<char>,
    path: Seq<char>,
    i: int,
    stream: Seq<u8>,
    j: int,
    bundle: Seq<u8>,
    files: Map<Seq<Seq<char>>, (nat, nat, bool)>,
    offset: nat,
    size: nat,
)
    requires
        first_member_match(ar_entries(bytes), member) == Some(i),
        xz_decoded(ar_entries(bytes)[i].1) == Some(stream),
        first_name_match(tar_entries(stream), inner) == Some(j),
        tar_entries(stream)[j].1 == bundle,
        asar_index(bundle) == Some(files),
        files.contains_key(components_from(path, 0)),
        files[components_from(path, 0)] == ((offset, size, false)),
        asar_content_base(bundle) + offset + size <= bundle.len(),
        valid_utf8(
            bundle.subrange(
                (asar_content_base(bundle) + offset) as int,
                (asar_content_base(bundle) + offset + size) as int,
            ),
        ),
    ensures
        spec_extract_from_deb(bytes, member, inner, path) == Ok::<Seq<char>, ErrorModel>(
            decode_utf8(
                bundle.subrange(
                    (asar_content_base(bundle) + offset) as int,
                    (asar_content_base(bundle) + offset + size) as int,
                ),
            ),
        ),
{
}

/// If the container is well formed but holds no member with the sought
/// name, the call fails with a not-found error naming that member.
pub proof fn lemma_missing_member_not_found(
    bytes: Seq<u8>,
    member: Seq<char>,
    inner: Seq<char>,
    path: Seq<char>,
)
    requires
        first_member_match(ar_entries(bytes), member) is None,
        ar_clean(bytes),
    ensures
        spec_extract_from_deb(bytes, member, inner, path) == Err::<Seq<char>, ErrorModel>(
            (ErrorModel::NotFound {
                stage: Stage::Container,
                sought: member,
                scanned: ar_entries(bytes).len(),
            }),
        ),
{
}

/// If the container holds the sought member but the member is not a valid
/// XZ stream, the call fails with a decode error at the decompression
/// stage.
pub proof fn lemma_invalid_stream_is_decode_error(
    bytes: Seq<u8>,
    member: Seq<char>,
    inner: Seq<char>,
    path: Seq<char>,
    i: int,
)
    requires
        first_member_match(ar_entries(bytes), member) == Some(i),
        xz_decoded(ar_entries(bytes)[i].1) is None,
    ensures
        spec_extract_from_deb(bytes, member, inner, path) == Err::<Seq<char>, ErrorModel>(
            (ErrorModel::Decode { stage: Stage::Decompress }),
        ),
{
}

/// If the tar stream is well formed but no entry's file name matches, the
/// call fails with a not-found error naming the sought file.
pub proof fn lemma_missing_inner_file_not_found(
    bytes: Seq<u8>,
    member: Seq<char>,
    inner: Seq<char>,
    path: Seq<char>,
    i: int,
    stream: Seq<u8>,
)
    requires
        first_member_match(ar_entries(bytes), member) == Some(i),
        xz_decoded(ar_entries(bytes)[i].1) == Some(stream),
        first_name_match(tar_entries(stream), inner) is None,
        tar_clean(stream),
    ensures
        spec_extract_from_deb(bytes, member, inner, path) == Err::<Seq<char>, ErrorModel>(
            (ErrorModel::NotFound {
                stage: Stage::Tar,
                sought: inner,
                scanned: tar_entries(stream).len(),
            }),
        ),
{
}

/// If the bundle indexes the sought path but its content is not valid
/// UTF-8, the call fails with a decode error at the text stage — never a
/// silent truncation or replacement.
pub proof fn lemma_non_utf8_artifact_is_decode_error(
    bytes: Seq<u8>,
    member: Seq<char>,
    inner: Seq<char>,
    path: Seq<char>,
    i: int,
    stream: Seq<u8>,
    j: int,
    bundle: Seq<u8>,
    files: Map<Seq<Seq<char>>, (nat, nat, bool)>,
    offset: nat,
    size: nat,
)
    requires
        first_member_match(ar_entries(bytes), member) == Some(i),
        xz_decoded(ar_entries(bytes)[i].1) == Some(stream),
        first_name_match(tar_entries(stream), inner) == Some(j),
        tar_entries(stream)[j].1 == bundle,
        asar_index(bundle) == Some(files),
        files.contains_key(components_from(path, 0)),
        files[components_from(path, 0)] == ((offset, size, false)),
        asar_content_base(bundle) + offset + size <= bundle.len(),
        !valid_utf8(
            bundle.subrange(
                (asar_content_base(bundle) + offset) as int,
                (asar_content_base(bundle) + offset + size) as int,
            ),
        ),
    ensures
        spec_extract_from_deb(bytes, member, inner, path) == Err::<Seq<char>, ErrorModel>(
            (ErrorModel::Decode { stage: Stage::Text }),
        ),
{
}

} // verus!
