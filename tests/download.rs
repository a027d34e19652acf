use flutter_engine::download::{
    default_target, download_url, engine_marker_file, should_download, Error, Target,
};

#[test]
fn it_works() {
    assert_eq!(2 + 2, 4);
}

#[test]
fn url_for_each_target() {
    assert_eq!(
        download_url("abc123", Target::Linux),
        "https://storage.googleapis.com/flutter_infra/flutter/abc123/linux-x64/linux-x64-embedder"
    );
    assert_eq!(
        download_url("abc123", Target::MacOS),
        "https://storage.googleapis.com/flutter_infra/flutter/abc123/darwin-x64/FlutterEmbedder.framework.zip"
    );
    assert_eq!(
        download_url("v1", Target::Windows),
        "https://storage.googleapis.com/flutter_infra/flutter/v1/windows-x64/windows-x64-embedder.zip"
    );
}

#[test]
fn marker_files_and_download_decision() {
    assert_eq!(engine_marker_file(Target::Linux), "libflutter_engine.so");
    assert_eq!(engine_marker_file(Target::MacOS), "FlutterEmbedder.framework");
    assert_eq!(engine_marker_file(Target::Windows), "flutter_engine.dll");
    let entries = vec!["engine.zip".to_string(), "libflutter_engine.so".to_string()];
    assert!(!should_download(Target::Linux, &entries));
    assert!(should_download(Target::Windows, &entries));
    assert!(should_download(Target::MacOS, &vec![]));
}

#[test]
fn default_target_by_os_name() {
    assert_eq!(default_target("linux"), Some(Target::Linux));
    assert_eq!(default_target("macos"), Some(Target::MacOS));
    assert_eq!(default_target("windows"), Some(Target::Windows));
    assert_eq!(default_target("freebsd"), None);
    assert_eq!(default_target(""), None);
}

#[test]
fn error_description() {
    assert_eq!(Error::AlreadyDownloaded.description(), "AlreadyDownloaded");
}
