use std::path::Path;

use unbg::download::{
    authorization_header, download_failure, files_to_fetch, first_response, is_success,
    listing_url, partial_path, range_header, remote_files, resolve_url, restarted_response,
    RemoteEntry, ResponseStep, USER_AGENT,
};
use unbg::inference::OnnxVariant;
use unbg::installer::{ErrorClass, InstallError};

fn entry(path: &str, kind: &str) -> RemoteEntry {
    RemoteEntry { path: path.to_string(), kind: kind.to_string() }
}

#[test]
fn source_addresses() {
    assert_eq!(
        listing_url("briaai/RMBG-1.4", "main"),
        "https://huggingface.co/api/models/briaai/RMBG-1.4/tree/main?recursive=1"
    );
    assert_eq!(
        resolve_url("briaai/RMBG-2.0", "abc123", "onnx/model_fp16.onnx"),
        "https://huggingface.co/briaai/RMBG-2.0/resolve/abc123/onnx/model_fp16.onnx"
    );
    assert_eq!(USER_AGENT, "unbg-installer/0.1");
}

#[test]
fn request_headers() {
    assert_eq!(authorization_header(Some("hf_x")).as_deref(), Some("Bearer hf_x"));
    assert_eq!(authorization_header(None), None);
    assert_eq!(range_header(0), None);
    assert_eq!(range_header(1).as_deref(), Some("bytes=1-"));
    assert_eq!(range_header(1_048_576).as_deref(), Some("bytes=1048576-"));
}

#[test]
fn partial_file_sits_beside_the_destination() {
    let part = partial_path("/tmp/dl/onnx/model.onnx");
    assert_eq!(Path::new(&part), Path::new("/tmp/dl/onnx/model.part"));
    let part = partial_path("/tmp/dl/config.json");
    assert_eq!(Path::new(&part), Path::new("/tmp/dl/config.part"));
}

#[test]
fn success_statuses() {
    assert!(!is_success(199));
    assert!(is_success(200));
    assert!(is_success(206));
    assert!(is_success(299));
    assert!(!is_success(300));
    assert!(!is_success(404));
    assert!(!is_success(416));
}

#[test]
fn steps_after_the_first_answer() {
    assert_eq!(first_response(0, 200), ResponseStep::Receive { keep_partial: false });
    assert_eq!(first_response(0, 206), ResponseStep::Receive { keep_partial: false });
    assert_eq!(first_response(0, 404), ResponseStep::Fail);
    assert_eq!(first_response(10, 206), ResponseStep::Receive { keep_partial: true });
    assert_eq!(first_response(10, 200), ResponseStep::Restart);
    assert_eq!(first_response(10, 416), ResponseStep::Fail);
    assert_eq!(first_response(10, 500), ResponseStep::Fail);
    assert_eq!(first_response(10, 204), ResponseStep::Receive { keep_partial: true });
    assert_eq!(restarted_response(200), ResponseStep::Receive { keep_partial: false });
    assert_eq!(restarted_response(403), ResponseStep::Fail);
}

#[test]
fn refused_transfer_as_error() {
    let e = download_failure("onnx/model.onnx", "briaai/RMBG-1.4", "main", "404 Not Found");
    assert_eq!(e.class(), ErrorClass::TransientIo);
    assert_eq!(
        e.message(),
        "failed downloading onnx/model.onnx for briaai/RMBG-1.4@main: 404 Not Found"
    );
}

#[test]
fn only_files_of_the_listing_count() {
    let entries = vec![
        entry("onnx", "directory"),
        entry("onnx/model.onnx", "file"),
        entry("README.md", "file"),
        entry("x", "File"),
    ];
    assert_eq!(remote_files(&entries), vec!["onnx/model.onnx", "README.md"]);
}

#[test]
fn listing_answer_to_files() {
    let entries = vec![
        entry("onnx", "directory"),
        entry("onnx/model.onnx", "file"),
        entry("onnx/model_fp16.onnx", "file"),
        entry("config.json", "file"),
        entry("README.md", "file"),
    ];
    let files =
        files_to_fetch("briaai/RMBG-1.4", "main", 200, "200 OK", &entries, OnnxVariant::Fp16)
            .unwrap();
    assert_eq!(files, vec!["onnx/model_fp16.onnx", "config.json"]);

    let err = files_to_fetch("briaai/RMBG-1.4", "main", 401, "401 Unauthorized", &entries, OnnxVariant::Fp16)
        .unwrap_err();
    assert!(matches!(err, InstallError::ListingFailed { .. }));
    assert_eq!(err.class(), ErrorClass::TransientIo);
    assert_eq!(err.message(), "failed to list files for briaai/RMBG-1.4@main: 401 Unauthorized");

    let none = vec![entry("README.md", "file"), entry("onnx/model.onnx", "directory")];
    let err = files_to_fetch("briaai/RMBG-2.0", "v1", 200, "200 OK", &none, OnnxVariant::Auto)
        .unwrap_err();
    assert!(matches!(err, InstallError::NoFilesListed { .. }));
    assert_eq!(err.class(), ErrorClass::Integrity);
    assert_eq!(err.message(), "no files listed for briaai/RMBG-2.0@v1");
}
