use mxu_lib::filename::{
    parse_content_disposition, percent_decode_bytes, replace_file_name, resolve_download_filename,
    resolve_save_path, sanitize_filename,
};

#[test]
fn sanitizer_rejects_traversal() {
    assert_eq!(sanitize_filename(&b"../../evil.exe".to_vec()), None);
}

#[test]
fn sanitizer_accepts_plain_name_unchanged() {
    assert_eq!(
        sanitize_filename(&b"report.pdf".to_vec()),
        Some(b"report.pdf".to_vec())
    );
}

#[test]
fn sanitizer_rejects_missing_extension() {
    assert_eq!(sanitize_filename(&b"noext".to_vec()), None);
}

#[test]
fn sanitizer_rejects_dot_names_and_empty() {
    assert_eq!(sanitize_filename(&b"".to_vec()), None);
    assert_eq!(sanitize_filename(&b".".to_vec()), None);
    assert_eq!(sanitize_filename(&b"..".to_vec()), None);
    assert_eq!(sanitize_filename(&b"dir/".to_vec()), None);
    assert_eq!(sanitize_filename(&b"..hidden.exe".to_vec()), None);
}

#[test]
fn sanitizer_strips_directories() {
    assert_eq!(
        sanitize_filename(&b"path/to/file.exe".to_vec()),
        Some(b"file.exe".to_vec())
    );
    assert_eq!(
        sanitize_filename(&b"path\\to\\file.exe".to_vec()),
        Some(b"file.exe".to_vec())
    );
}

#[test]
fn percent_decoding_decodes_utf8_escapes() {
    let decoded = percent_decode_bytes(&b"%E4%B8%AD%E6%96%87.exe".to_vec());
    assert_eq!(decoded, "\u{4E2D}\u{6587}.exe".as_bytes().to_vec());
}

#[test]
fn percent_decoding_keeps_broken_escapes() {
    assert_eq!(percent_decode_bytes(&b"a%2".to_vec()), b"a%2".to_vec());
    assert_eq!(percent_decode_bytes(&b"a%zz".to_vec()), b"a%zz".to_vec());
    assert_eq!(percent_decode_bytes(&b"%41%20b".to_vec()), b"A b".to_vec());
}

/// The RFC 5987 encoded parameter decodes to the corresponding Unicode name.
#[test]
fn header_encoded_filename_decodes() {
    let header = b"attachment; filename*=UTF-8''%E4%B8%AD%E6%96%87.exe".to_vec();
    assert_eq!(
        parse_content_disposition(&header),
        Some("\u{4E2D}\u{6587}.exe".as_bytes().to_vec())
    );
}

#[test]
fn header_plain_filename_with_quotes() {
    let header = b"attachment; filename=\"example.exe\"".to_vec();
    assert_eq!(parse_content_disposition(&header), Some(b"example.exe".to_vec()));
}

#[test]
fn header_is_matched_case_insensitively() {
    let header = b"Attachment; Filename=\"example.exe\"".to_vec();
    assert_eq!(parse_content_disposition(&header), Some(b"example.exe".to_vec()));
}

#[test]
fn header_encoded_parameter_wins_over_plain() {
    let header = b"attachment; filename=\"plain.bin\"; filename*=utf-8''enc%20oded.bin".to_vec();
    assert_eq!(parse_content_disposition(&header), Some(b"enc oded.bin".to_vec()));
}

#[test]
fn header_without_filename_yields_nothing() {
    assert_eq!(parse_content_disposition(&b"inline".to_vec()), None);
    assert_eq!(parse_content_disposition(&b"attachment; filename=".to_vec()), None);
}

#[test]
fn resolution_prefers_header_over_url() {
    let header = b"attachment; filename=\"from-header.zip\"".to_vec();
    let url_path = b"/downloads/from-url.zip".to_vec();
    assert_eq!(
        resolve_download_filename(Some(&header), &url_path),
        Some(b"from-header.zip".to_vec())
    );
}

#[test]
fn resolution_falls_back_to_url_segment() {
    let url_path = b"/releases/v2/pkg%20name.tar.gz".to_vec();
    assert_eq!(
        resolve_download_filename(None, &url_path),
        Some(b"pkg name.tar.gz".to_vec())
    );
}

#[test]
fn resolution_rejects_unusable_candidates() {
    // Header name fails the sanitizer, URL segment has no extension:
    // nothing is resolved and the caller keeps its own path.
    let header = b"attachment; filename=\"../up.exe\"".to_vec();
    let url_path = b"/latest/noext".to_vec();
    assert_eq!(resolve_download_filename(Some(&header), &url_path), None);
}

#[test]
fn save_path_keeps_directory_of_caller_path() {
    let header = b"attachment; filename=\"real.zip\"".to_vec();
    let (actual, detected) = resolve_save_path(
        &b"/data/downloads/guess.bin".to_vec(),
        Some(&header),
        &b"/x/y".to_vec(),
    );
    assert_eq!(detected, Some(b"real.zip".to_vec()));
    assert_eq!(actual, b"/data/downloads/real.zip".to_vec());
}

#[test]
fn save_path_unchanged_without_detection() {
    let (actual, detected) =
        resolve_save_path(&b"/data/guess.bin".to_vec(), None, &b"/latest".to_vec());
    assert_eq!(detected, None);
    assert_eq!(actual, b"/data/guess.bin".to_vec());
}

#[test]
fn replace_file_name_handles_bare_names() {
    assert_eq!(
        replace_file_name(&b"guess.bin".to_vec(), &b"real.bin".to_vec()),
        b"real.bin".to_vec()
    );
    assert_eq!(
        replace_file_name(&b"a\\b\\guess.bin".to_vec(), &b"real.bin".to_vec()),
        b"a\\b\\real.bin".to_vec()
    );
}
