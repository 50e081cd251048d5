use gdvm::error::Error;
use gdvm::package_list::{PackageEntry, PackageList, PackageListData, Platform};
use gdvm::version::{GodotVersion, TestMark};

fn stable(major: u8, minor: u8, patch: u8) -> GodotVersion {
    GodotVersion { major, minor, patch, testmark: TestMark::Stable, is_mono: false }
}

fn entry(platform: Platform, version: GodotVersion, path: &str) -> PackageEntry {
    PackageEntry { platform, version, path: path.to_string() }
}

const ALL: [Platform; 5] = [
    Platform::Win32,
    Platform::Win64,
    Platform::LinuxX86_32,
    Platform::LinuxX86_64,
    Platform::MacOs,
];

#[test]
fn url_joins_prefix_and_path() {
    let mut list = PackageList::new("https://example.com/".to_string());
    list.insert(Platform::Win64, stable(3, 3, 3), "3.3.3/win64.zip".to_string());
    assert_eq!(
        list.url(Platform::Win64, &stable(3, 3, 3)),
        Some("https://example.com/3.3.3/win64.zip".to_string())
    );
    assert!(list.has(Platform::Win64, &stable(3, 3, 3)));
}

#[test]
fn url_finds_nothing_for_an_absent_version() {
    let mut list = PackageList::new("https://example.com/".to_string());
    for platform in ALL {
        assert_eq!(list.url(platform, &stable(3, 3, 3)), None);
    }
    list.insert(Platform::Win64, stable(3, 3, 3), "3.3.3/win64.zip".to_string());
    assert_eq!(list.url(Platform::Win64, &stable(3, 3, 4)), None);
    assert_eq!(
        list.url(Platform::Win64, &GodotVersion { is_mono: true, ..stable(3, 3, 3) }),
        None
    );
    for platform in ALL {
        if platform != Platform::Win64 {
            assert_eq!(list.url(platform, &stable(3, 3, 3)), None);
            assert!(!list.has(platform, &stable(3, 3, 3)));
        }
    }
}

#[test]
fn each_platform_has_its_own_table() {
    let mut list = PackageList::new("p/".to_string());
    for platform in ALL {
        list.insert(platform, stable(4, 0, 0), format!("{}/godot.zip", platform.tag()));
    }
    for platform in ALL {
        assert_eq!(
            list.url(platform, &stable(4, 0, 0)),
            Some(format!("p/{}/godot.zip", platform.tag()))
        );
    }
}

#[test]
fn insert_replaces_the_path_of_the_same_version() {
    let mut list = PackageList::new("p/".to_string());
    list.insert(Platform::MacOs, stable(4, 0, 0), "old".to_string());
    list.insert(Platform::MacOs, stable(4, 0, 0), "new".to_string());
    assert_eq!(list.url(Platform::MacOs, &stable(4, 0, 0)), Some("p/new".to_string()));
}

#[test]
fn tags_name_the_platforms() {
    assert_eq!(Platform::Win32.tag(), "win32");
    assert_eq!(Platform::Win64.tag(), "win64");
    assert_eq!(Platform::LinuxX86_32.tag(), "linux_x86_32");
    assert_eq!(Platform::LinuxX86_64.tag(), "linux_x86_64");
    assert_eq!(Platform::MacOs.tag(), "macos");
    for platform in ALL {
        assert_eq!(Platform::from_tag(platform.tag()), Some(platform));
    }
    for tag in ["", "win", "win128", "Win64", "linux", "linux_x86_64 ", "macOS", "freebsd"] {
        assert_eq!(Platform::from_tag(tag), None, "{:?}", tag);
    }
}

#[test]
fn resolve_url_goes_by_the_tag() {
    let mut list = PackageList::new("https://example.com/".to_string());
    list.insert(Platform::Win64, stable(3, 3, 3), "3.3.3/win64.zip".to_string());
    list.insert(Platform::LinuxX86_64, stable(3, 3, 3), "3.3.3/linux.zip".to_string());
    assert_eq!(
        list.resolve_url("win64", &stable(3, 3, 3)),
        Ok("https://example.com/3.3.3/win64.zip".to_string())
    );
    assert_eq!(
        list.resolve_url("linux_x86_64", &stable(3, 3, 3)),
        Ok("https://example.com/3.3.3/linux.zip".to_string())
    );
    assert_eq!(
        list.resolve_url("win32", &stable(3, 3, 3)),
        Err(Error::VersionNotFound(stable(3, 3, 3)))
    );
    assert_eq!(
        list.resolve_url("win64", &stable(3, 3, 4)),
        Err(Error::VersionNotFound(stable(3, 3, 4)))
    );
}

#[test]
fn resolve_url_finds_nothing_for_an_unknown_platform() {
    let mut list = PackageList::new("https://example.com/".to_string());
    for platform in ALL {
        list.insert(platform, stable(3, 3, 3), "x".to_string());
    }
    for tag in ["", "amiga", "WIN64", "linux_arm64"] {
        assert_eq!(
            list.resolve_url(tag, &stable(3, 3, 3)),
            Err(Error::VersionNotFound(stable(3, 3, 3)))
        );
    }
}

#[test]
fn package_list_load_or_new_starts_empty_without_stored_data() {
    let list = PackageList::load_or_new(None).ok().unwrap();
    for platform in ALL {
        assert_eq!(list.url(platform, &stable(3, 3, 3)), None);
    }
    let list = PackageList::default();
    assert_eq!(list.url(Platform::Win32, &stable(3, 3, 3)), None);
}

#[test]
fn package_list_load_or_new_takes_distinct_entries() {
    let data = PackageListData {
        prefix_url: "https://example.com/".to_string(),
        entries: vec![
            entry(Platform::Win64, stable(3, 3, 3), "3.3.3/win64.zip"),
            entry(Platform::Win32, stable(3, 3, 3), "3.3.3/win32.zip"),
            entry(Platform::Win64, stable(3, 3, 4), "3.3.4/win64.zip"),
        ],
    };
    let list = PackageList::load_or_new(Some(data)).ok().unwrap();
    assert_eq!(
        list.url(Platform::Win64, &stable(3, 3, 3)),
        Some("https://example.com/3.3.3/win64.zip".to_string())
    );
    assert_eq!(
        list.url(Platform::Win32, &stable(3, 3, 3)),
        Some("https://example.com/3.3.3/win32.zip".to_string())
    );
    assert_eq!(
        list.url(Platform::Win64, &stable(3, 3, 4)),
        Some("https://example.com/3.3.4/win64.zip".to_string())
    );
    assert_eq!(list.url(Platform::Win32, &stable(3, 3, 4)), None);
    assert_eq!(list.url(Platform::MacOs, &stable(3, 3, 3)), None);
}

#[test]
fn package_list_load_or_new_refuses_an_entry_given_twice() {
    let data = PackageListData {
        prefix_url: "https://example.com/".to_string(),
        entries: vec![
            entry(Platform::Win64, stable(3, 3, 3), "a"),
            entry(Platform::Win32, stable(3, 3, 3), "b"),
            entry(Platform::Win64, stable(3, 3, 3), "c"),
        ],
    };
    assert_eq!(PackageList::load_or_new(Some(data)).err(), Some(Error::InvalidPackageList));
}
