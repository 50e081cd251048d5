use gdvm::error::Error;
use gdvm::version::{GodotVersion, TestMark};

#[test]
fn messages_name_what_went_wrong() {
    let v = GodotVersion { major: 4, minor: 0, patch: 1, testmark: TestMark::Alpha(1), is_mono: false };
    assert_eq!(
        Error::CannotParseVersion("3.3.3".to_string()).message(),
        "cannot parse `3.3.3`: not a valid godot version"
    );
    assert_eq!(Error::InvalidTestMark("gamma".to_string()).message(), "Invalid testmark gamma");
    assert_eq!(
        Error::VersionNotFound(v).message(),
        "version not found: `v4.0.1-alpha1` not found in package list"
    );
    assert_eq!(Error::NotInstalled(v).message(), "version `v4.0.1-alpha1` is not installed");
    assert_eq!(Error::InvalidManifest.message(), "the manifest is not consistent");
    assert_eq!(Error::InvalidPackageList.message(), "the package list is not consistent");
    assert_eq!(Error::Unknown.message(), "unknown error");
}

#[test]
fn parse_error_carries_the_text() {
    let e = GodotVersion::from_str("not a version").unwrap_err();
    assert_eq!(e.message(), "cannot parse `not a version`: not a valid godot version");
}
