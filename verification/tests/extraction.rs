//! End-to-end tests of the extraction pipeline over synthetic archives
//! built with the same crates the library reads them with.

use dns_fallback_extract::errors::{ExtractError, Stage};
use dns_fallback_extract::paths::file_name_of;
use dns_fallback_extract::pipeline::{
    extract_bundle_artifact, extract_from_asar, extract_from_deb, extract_package_artifact,
};

/// A minimal bundle whose index lists exactly one file,
/// `build/dns-fallback.json`, with the given content.
fn mini_asar(content: &[u8]) -> Vec<u8> {
    let index = format!(
        r#"{{"files":{{"build":{{"files":{{"dns-fallback.json":{{"offset":"0","size":{}}}}}}}}}}}"#,
        content.len()
    );
    asar_from_index(index.as_bytes(), content)
}

/// A bundle from a raw JSON index and a content blob.
fn asar_from_index(index: &[u8], blob: &[u8]) -> Vec<u8> {
    let json_size = index.len() as u32;
    let header_size = json_size + 8;
    let mut out = Vec::new();
    out.extend_from_slice(&4u32.to_le_bytes());
    out.extend_from_slice(&header_size.to_le_bytes());
    out.extend_from_slice(&(json_size + 4).to_le_bytes());
    out.extend_from_slice(&json_size.to_le_bytes());
    out.extend_from_slice(index);
    out.extend_from_slice(blob);
    out
}

/// A tar stream with the given (path, content) entries.
fn tar_with(entries: &[(&str, &[u8])]) -> Vec<u8> {
    let mut builder = tar::Builder::new(Vec::new());
    for (path, content) in entries {
        let mut header = tar::Header::new_gnu();
        header.set_size(content.len() as u64);
        header.set_mode(0o644);
        header.set_cksum();
        builder
            .append_data(&mut header, path, *content)
            .expect("appending a tar entry to a memory buffer cannot fail");
    }
    builder.into_inner().expect("finishing a tar stream in memory cannot fail")
}

/// An XZ compression of the given bytes.
fn xz(bytes: &[u8]) -> Vec<u8> {
    let mut input = std::io::BufReader::new(bytes);
    let mut out = Vec::new();
    lzma_rs::xz_compress(&mut input, &mut out).expect("compressing into memory cannot fail");
    out
}

/// A Unix archive container with the given (member name, content) entries.
fn deb_with(members: &[(&str, &[u8])]) -> Vec<u8> {
    let mut builder = ar::Builder::new(Vec::new());
    for (name, content) in members {
        let header = ar::Header::new(name.as_bytes().to_vec(), content.len() as u64);
        builder
            .append(&header, *content)
            .expect("appending an archive entry to a memory buffer cannot fail");
    }
    builder.into_inner().expect("finishing an archive in memory cannot fail")
}

/// A complete well-formed package holding the artifact with the given
/// content, with unrelated members and entries around it.
fn full_package(artifact: &[u8]) -> Vec<u8> {
    let bundle = mini_asar(artifact);
    let stream = tar_with(&[
        ("./usr/share/doc/readme", b"docs"),
        ("./opt/Signal/resources/app.asar", &bundle),
        ("./opt/Signal/resources/later.txt", b"after the match"),
    ]);
    deb_with(&[
        ("debian-binary", b"2.0\n"),
        ("control.tar.gz", b"not inspected"),
        ("data.tar.xz", &xz(&stream)),
    ])
}

#[test]
fn valid_package_yields_artifact_text() {
    let package = full_package(b"{\"ok\":true}");
    let text = extract_from_deb(&package).expect("a valid package must extract");
    assert_eq!(text, "{\"ok\":true}");
}

#[test]
fn extraction_is_idempotent_on_success() {
    let package = full_package(b"{\"domains\":[]}");
    let first = extract_from_deb(&package).expect("a valid package must extract");
    let second = extract_from_deb(&package).expect("a valid package must extract");
    assert_eq!(first, second);
}

#[test]
fn extraction_is_idempotent_on_failure() {
    let package = deb_with(&[("debian-binary", b"2.0\n")]);
    let first = extract_from_deb(&package);
    let second = extract_from_deb(&package);
    match (first, second) {
        (
            Err(ExtractError::NotFound { stage: s1, sought: n1, scanned: c1 }),
            Err(ExtractError::NotFound { stage: s2, sought: n2, scanned: c2 }),
        ) => {
            assert_eq!(s1, s2);
            assert_eq!(n1, n2);
            assert_eq!(c1, c2);
        }
        other => panic!("both calls must fail alike, got {other:?}"),
    }
}

#[test]
fn missing_member_is_not_found() {
    let package = deb_with(&[
        ("debian-binary", b"2.0\n"),
        ("control.tar.gz", b"irrelevant"),
    ]);
    match extract_from_deb(&package) {
        Err(ExtractError::NotFound { stage, sought, scanned }) => {
            assert_eq!(stage, Stage::Container);
            assert_eq!(sought, "data.tar.xz");
            assert_eq!(scanned, 2);
        }
        other => panic!("expected a container not-found error, got {other:?}"),
    }
}

#[test]
fn garbage_container_is_malformed() {
    let bytes = b"this is not an archive container at all";
    match extract_from_deb(bytes) {
        Err(ExtractError::MalformedInput { stage }) => assert_eq!(stage, Stage::Container),
        other => panic!("expected a malformed container error, got {other:?}"),
    }
}

#[test]
fn error_reports_its_stage() {
    let err = extract_from_deb(b"no archive here").unwrap_err();
    assert_eq!(err.stage(), Stage::Container);
    let bundle = mini_asar(&[0xff, 0xfe]);
    let err = extract_from_asar(&bundle).unwrap_err();
    assert_eq!(err.stage(), Stage::Text);
}

#[test]
fn empty_input_is_malformed_container() {
    match extract_from_deb(b"") {
        Err(ExtractError::MalformedInput { stage }) => assert_eq!(stage, Stage::Container),
        other => panic!("expected a malformed container error, got {other:?}"),
    }
}

#[test]
fn corrupt_compressed_member_is_decode_error() {
    let package = deb_with(&[
        ("debian-binary", b"2.0\n"),
        ("data.tar.xz", b"certainly not an xz stream"),
    ]);
    match extract_from_deb(&package) {
        Err(ExtractError::Decode { stage }) => assert_eq!(stage, Stage::Decompress),
        other => panic!("expected a decompression decode error, got {other:?}"),
    }
}

#[test]
fn missing_inner_file_is_not_found() {
    let stream = tar_with(&[
        ("./usr/bin/tool", b"elf bytes"),
        ("./usr/share/doc/readme", b"docs"),
    ]);
    let package = deb_with(&[("data.tar.xz", &xz(&stream))]);
    match extract_from_deb(&package) {
        Err(ExtractError::NotFound { stage, sought, scanned }) => {
            assert_eq!(stage, Stage::Tar);
            assert_eq!(sought, "app.asar");
            assert_eq!(scanned, 2);
        }
        other => panic!("expected a tar not-found error, got {other:?}"),
    }
}

#[test]
fn corrupt_tar_stream_is_malformed() {
    // A non-empty block of 512 bytes that is not all zero fails the tar
    // header checksum before any entry is yielded.
    let bogus = vec![0x55u8; 512];
    let package = deb_with(&[("data.tar.xz", &xz(&bogus))]);
    match extract_from_deb(&package) {
        Err(ExtractError::MalformedInput { stage }) => assert_eq!(stage, Stage::Tar),
        other => panic!("expected a malformed tar error, got {other:?}"),
    }
}

#[test]
fn non_utf8_artifact_is_decode_error() {
    let bundle = mini_asar(&[0xff, 0xfe, 0x80, 0x81]);
    let stream = tar_with(&[("app.asar", &bundle)]);
    let package = deb_with(&[("data.tar.xz", &xz(&stream))]);
    match extract_from_deb(&package) {
        Err(ExtractError::Decode { stage }) => assert_eq!(stage, Stage::Text),
        other => panic!("expected a text decode error, got {other:?}"),
    }
}

#[test]
fn minimal_bundle_yields_exact_text() {
    let bundle = mini_asar(b"{\"ok\":true}");
    let text = extract_from_asar(&bundle).expect("a minimal bundle must extract");
    assert_eq!(text, "{\"ok\":true}");
}

#[test]
fn bundle_without_path_is_not_found() {
    let index = br#"{"files":{"hello.txt":{"offset":"0","size":5},"other.txt":{"offset":"5","size":5}}}"#;
    let bundle = asar_from_index(index, b"aaaaabbbbb");
    match extract_from_asar(&bundle) {
        Err(ExtractError::NotFound { stage, sought, scanned }) => {
            assert_eq!(stage, Stage::Bundle);
            assert_eq!(sought, "build/dns-fallback.json");
            assert_eq!(scanned, 0);
        }
        other => panic!("expected a bundle not-found error, got {other:?}"),
    }
}

#[test]
fn bundle_index_with_oversized_file_is_malformed() {
    // An index may claim any offset and length; a file record reaching
    // past the bundle's end must be a malformed-bundle error, never an
    // out-of-bounds read or an aborted process.
    let index = br#"{"files":{"build":{"files":{"dns-fallback.json":{"offset":"0","size":18446744073709551566}}}}}"#;
    let bundle = asar_from_index(index, b"tiny");
    match extract_from_asar(&bundle) {
        Err(ExtractError::MalformedInput { stage }) => assert_eq!(stage, Stage::Bundle),
        other => panic!("expected a malformed bundle error, got {other:?}"),
    }
    let index = br#"{"files":{"build":{"files":{"dns-fallback.json":{"offset":"18446744073709551615","size":4}}}}}"#;
    let bundle = asar_from_index(index, b"tiny");
    match extract_from_asar(&bundle) {
        Err(ExtractError::MalformedInput { stage }) => assert_eq!(stage, Stage::Bundle),
        other => panic!("expected a malformed bundle error, got {other:?}"),
    }
}

#[test]
fn gnu_name_reference_without_table_is_malformed() {
    // A container whose first header carries a GNU name-table reference,
    // with no table stored, must be a malformed-container error, never an
    // aborted process.
    let mut bytes = b"!<arch>
".to_vec();
    bytes.extend_from_slice(b"/1              ");
    bytes.extend_from_slice(b"0           ");
    bytes.extend_from_slice(b"0     ");
    bytes.extend_from_slice(b"0     ");
    bytes.extend_from_slice(b"644     ");
    bytes.extend_from_slice(b"0         ");
    bytes.extend_from_slice(b"`
");
    assert_eq!(bytes.len(), 68);
    match extract_from_deb(&bytes) {
        Err(ExtractError::MalformedInput { stage }) => assert_eq!(stage, Stage::Container),
        other => panic!("expected a malformed container error, got {other:?}"),
    }
}

#[test]
fn corrupt_bundle_index_is_malformed() {
    let bundle = asar_from_index(b"{\"files\":", b"");
    match extract_from_asar(&bundle) {
        Err(ExtractError::MalformedInput { stage }) => assert_eq!(stage, Stage::Bundle),
        other => panic!("expected a malformed bundle error, got {other:?}"),
    }
}

#[test]
fn first_matching_tar_entry_wins() {
    let first = mini_asar(b"{\"which\":\"first\"}");
    let second = mini_asar(b"{\"which\":\"second\"}");
    let stream = tar_with(&[
        ("./a/app.asar", &first),
        ("./b/app.asar", &second),
    ]);
    let package = deb_with(&[("data.tar.xz", &xz(&stream))]);
    let text = extract_from_deb(&package).expect("a valid package must extract");
    assert_eq!(text, "{\"which\":\"first\"}");
}

#[test]
fn targets_are_parameters_not_literals() {
    let bundle = asar_from_index(
        br#"{"files":{"notes.txt":{"offset":"0","size":4}}}"#,
        b"hi\xc3\xa9",
    );
    let stream = tar_with(&[("./deep/inner.bin", &bundle)]);
    let container = deb_with(&[("payload.xz", &xz(&stream))]);
    let text = extract_package_artifact(&container, "payload.xz", "inner.bin", "notes.txt")
        .expect("the general entry point must honour its target parameters");
    assert_eq!(text, "hi\u{e9}");
}

#[test]
fn file_name_takes_the_final_segment() {
    assert_eq!(file_name_of(b"a/b/c"), Some(b"c".to_vec()));
    assert_eq!(file_name_of(b"app.asar"), Some(b"app.asar".to_vec()));
    assert_eq!(file_name_of(b"dir/app.asar/"), Some(b"app.asar".to_vec()));
    assert_eq!(file_name_of(b"///"), None);
    assert_eq!(file_name_of(b""), None);
}

#[test]
fn bundle_artifact_text_is_bytewise_exact() {
    // A decoded artifact must be the file's bytes read as UTF-8, not a
    // lossy or trimmed rendering.
    let content = "line one\n\tline two \u{2713}\n";
    let bundle = mini_asar(content.as_bytes());
    let text = extract_bundle_artifact(&bundle, "build/dns-fallback.json")
        .expect("a valid bundle must extract");
    assert_eq!(text, content);
}
