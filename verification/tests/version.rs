use gdvm::error::Error;
use gdvm::version::{GodotVersion, TestMark};

fn version(major: u8, minor: u8, patch: u8, testmark: TestMark, is_mono: bool) -> GodotVersion {
    GodotVersion { major, minor, patch, testmark, is_mono }
}

#[test]
fn parse_godot_version() {
    let should_success = [
        (
            "v3.3.3-stable",
            GodotVersion {
                major: 3,
                minor: 3,
                patch: 3,
                testmark: TestMark::Stable,
                is_mono: false,
            },
        ),
        (
            "v3.4.3-stable_mono",
            GodotVersion {
                major: 3,
                minor: 4,
                patch: 3,
                testmark: TestMark::Stable,
                is_mono: true,
            },
        ),
        (
            "v4.0.1-alpha1",
            GodotVersion {
                major: 4,
                minor: 0,
                patch: 1,
                testmark: TestMark::Alpha(1),
                is_mono: false,
            },
        ),
    ];
    for (str, vcs) in should_success {
        assert_eq!(str.parse::<GodotVersion>().unwrap(), vcs)
    }
}

#[test]
fn parse_reads_every_marker() {
    assert_eq!(
        GodotVersion::from_str("v1.2.3-beta7"),
        Ok(version(1, 2, 3, TestMark::Beta(7), false))
    );
    assert_eq!(
        GodotVersion::from_str("v3.4.3-rc6_mono"),
        Ok(version(3, 4, 3, TestMark::Rc(6), true))
    );
    assert_eq!(
        GodotVersion::from_str("v0.0.0-alpha0"),
        Ok(version(0, 0, 0, TestMark::Alpha(0), false))
    );
    assert_eq!(
        GodotVersion::from_str("v255.255.255-rc255_mono"),
        Ok(version(255, 255, 255, TestMark::Rc(255), true))
    );
}

#[test]
fn parse_rejects_malformed_text() {
    for text in ["3.3.3-stable", "v3.3-stable", "v3.3.3-unknown", "v3.3.3"] {
        assert_eq!(
            GodotVersion::from_str(text),
            Err(Error::CannotParseVersion(text.to_string()))
        );
    }
}

#[test]
fn parse_rejects_more_malformed_text() {
    for text in [
        "",
        "v",
        "-",
        "v3.3.3-",
        "v3.3.3.3-stable",
        "v3..3-stable",
        "v.3.3-stable",
        "v3.3.-stable",
        "V3.3.3-stable",
        "vv3.3.3-stable",
        " v3.3.3-stable",
        "v3.3.3-stable ",
        "v3.3.3-Stable",
        "v3.3.3-stable1",
        "v3.3.3-alpha",
        "v3.3.3-beta",
        "v3.3.3-rc",
        "v3.3.3-alphax",
        "v3.3.3-alpha1x",
        "v3.3.3-alpha 1",
        "v3.3.3-gamma1",
        "v3.x.3-stable",
        "v3.3.3--stable",
        "v3.3.3_-stable",
        "v-3.3.3-stable",
        "v3.3.3-alpha-1",
        "v3.3.3-alpha++1",
        "v3.3.3-alpha+",
        "v+.3.3-stable",
    ] {
        assert_eq!(
            GodotVersion::from_str(text),
            Err(Error::CannotParseVersion(text.to_string())),
            "{}",
            text
        );
    }
}

#[test]
fn parse_rejects_numbers_out_of_range() {
    for text in [
        "v256.0.0-stable",
        "v0.256.0-stable",
        "v0.0.256-stable",
        "v0.0.0-alpha256",
        "v0.0.0-beta1000",
        "v0.0.0-rc99999999999999999999999999",
        "v99999999999999999999999999.0.0-stable",
        "v0000256.0.0-stable",
    ] {
        assert_eq!(
            GodotVersion::from_str(text),
            Err(Error::CannotParseVersion(text.to_string())),
            "{}",
            text
        );
    }
    assert_eq!(
        GodotVersion::from_str("v255.0.0-stable"),
        Ok(version(255, 0, 0, TestMark::Stable, false))
    );
}

#[test]
fn parse_sets_mono_for_any_third_piece() {
    let mono = version(3, 3, 3, TestMark::Stable, true);
    assert_eq!(GodotVersion::from_str("v3.3.3-stable_anything"), Ok(mono));
    assert_eq!(GodotVersion::from_str("v3.3.3-stable-mono"), Ok(mono));
    assert_eq!(GodotVersion::from_str("v3.3.3-stable_"), Ok(mono));
    assert_eq!(GodotVersion::from_str("v3.3.3-stable_mono_and-more"), Ok(mono));
    assert_eq!(GodotVersion::from_str("v3.3.3-stable_\u{e9}t\u{e9}"), Ok(mono));
    assert_eq!(
        GodotVersion::from_str("v3.3.3-stable"),
        Ok(version(3, 3, 3, TestMark::Stable, false))
    );
}

#[test]
fn parse_takes_either_delimiter_and_liberal_numerals() {
    assert_eq!(
        GodotVersion::from_str("v3.3.3_stable"),
        Ok(version(3, 3, 3, TestMark::Stable, false))
    );
    assert_eq!(
        GodotVersion::from_str("v+3.03.003-stable"),
        Ok(version(3, 3, 3, TestMark::Stable, false))
    );
    assert_eq!(
        GodotVersion::from_str("v1.2.3-alpha+4"),
        Ok(version(1, 2, 3, TestMark::Alpha(4), false))
    );
    assert_eq!(
        GodotVersion::from_str("v1.2.3-rc007"),
        Ok(version(1, 2, 3, TestMark::Rc(7), false))
    );
}

#[test]
fn parse_agrees_with_std_on_numerals() {
    for text in ["0", "7", "42", "255", "256", "+1", "+", "-1", "", "007", "1a", "a1", " 1", "999"] {
        let expected = text.parse::<u8>().ok();
        let whole = format!("v{}.0.0-stable", text);
        let got = GodotVersion::from_str(&whole).ok().map(|v| v.major);
        assert_eq!(got, expected, "{:?}", text);
    }
}

#[test]
fn format_writes_the_canonical_text() {
    assert_eq!(version(3, 3, 3, TestMark::Stable, false).to_string(), "v3.3.3-stable");
    assert_eq!(version(3, 4, 3, TestMark::Stable, true).to_string(), "v3.4.3-stable_mono");
    assert_eq!(version(3, 4, 3, TestMark::Rc(6), true).to_string(), "v3.4.3-rc6_mono");
    assert_eq!(version(4, 0, 1, TestMark::Alpha(1), false).to_string(), "v4.0.1-alpha1");
    assert_eq!(version(255, 0, 10, TestMark::Beta(100), false).to_string(), "v255.0.10-beta100");
    assert_eq!(version(0, 99, 109, TestMark::Alpha(0), true).to_string(), "v0.99.109-alpha0_mono");
}

#[test]
fn parse_inverts_format() {
    let numbers = [0u8, 1, 9, 10, 11, 99, 100, 101, 199, 200, 254, 255];
    for &n in numbers.iter() {
        for testmark in
            [TestMark::Stable, TestMark::Alpha(n), TestMark::Beta(n), TestMark::Rc(n)]
        {
            for is_mono in [false, true] {
                for v in [
                    version(n, 0, 255, testmark, is_mono),
                    version(7, n, 0, testmark, is_mono),
                    version(255, 10, n, testmark, is_mono),
                ] {
                    assert_eq!(GodotVersion::from_str(&v.to_string()), Ok(v));
                }
            }
        }
    }
}

#[test]
fn format_does_not_invert_parse() {
    let v = GodotVersion::from_str("v3.3.3-stable_anything").unwrap();
    assert_eq!(v.to_string(), "v3.3.3-stable_mono");
    let w = GodotVersion::from_str("v03.3.3_stable").unwrap();
    assert_eq!(w.to_string(), "v3.3.3-stable");
}

#[test]
fn testmark_from_str_reads_markers() {
    assert_eq!(TestMark::from_str("stable"), Ok(TestMark::Stable));
    assert_eq!(TestMark::from_str("alpha1"), Ok(TestMark::Alpha(1)));
    assert_eq!(TestMark::from_str("beta20"), Ok(TestMark::Beta(20)));
    assert_eq!(TestMark::from_str("rc255"), Ok(TestMark::Rc(255)));
}

#[test]
fn testmark_from_str_rejects_other_text() {
    for text in ["", "stable1", "Stable", "alpha", "alpha256", "beta-1", "rc", "rcx", "release", "alph1"] {
        assert_eq!(
            TestMark::from_str(text),
            Err(Error::InvalidTestMark(text.to_string())),
            "{}",
            text
        );
    }
}

#[test]
fn parse_goes_through_from_str() {
    assert_eq!("v3.4.3-rc6_mono".parse::<GodotVersion>(), GodotVersion::from_str("v3.4.3-rc6_mono"));
    assert_eq!("v3.4.3".parse::<GodotVersion>(), Err(Error::CannotParseVersion("v3.4.3".to_string())));
    assert_eq!("beta2".parse::<TestMark>(), Ok(TestMark::Beta(2)));
    assert_eq!("beta".parse::<TestMark>(), Err(Error::InvalidTestMark("beta".to_string())));
}

#[test]
fn testmark_from_chars_agrees_with_from_str() {
    for text in ["stable", "alpha3", "beta", "rc12", "nothing"] {
        let chars: Vec<char> = text.chars().collect();
        assert_eq!(TestMark::from_chars(&chars), TestMark::from_str(text).ok());
    }
}

#[test]
fn testmark_write_to_appends() {
    let mut out = String::from("x-");
    TestMark::Beta(12).write_to(&mut out);
    assert_eq!(out, "x-beta12");
    TestMark::Stable.write_to(&mut out);
    assert_eq!(out, "x-beta12stable");
}

#[test]
fn triple_from_chars_reads_three_numbers() {
    let read = |text: &str| gdvm::version::triple_from_chars(&text.chars().collect());
    assert_eq!(read("v1.2.3"), Some((1, 2, 3)));
    assert_eq!(read("v255.0.10"), Some((255, 0, 10)));
    assert_eq!(read("1.2.3"), None);
    assert_eq!(read("v1.2"), None);
    assert_eq!(read("v1.2.3.4"), None);
    assert_eq!(read("v1.2.256"), None);
    assert_eq!(read(""), None);
}

#[test]
fn same_text_compares_characters() {
    let a: Vec<char> = "mono".chars().collect();
    let b: Vec<char> = "mono".chars().collect();
    let c: Vec<char> = "monk".chars().collect();
    let d: Vec<char> = "mon".chars().collect();
    assert!(gdvm::version::same_text(&a, &b));
    assert!(!gdvm::version::same_text(&a, &c));
    assert!(!gdvm::version::same_text(&a, &d));
    assert!(gdvm::version::same_text(&Vec::new(), &Vec::new()));
}

#[test]
fn key_packs_the_fields() {
    assert_eq!(version(0, 0, 0, TestMark::Stable, false).key(), 0);
    assert_eq!(version(0, 0, 0, TestMark::Stable, true).key(), 1);
    assert_eq!(version(0, 0, 0, TestMark::Alpha(0), false).key(), 512);
    assert_eq!(version(0, 0, 0, TestMark::Alpha(1), false).key(), 514);
    assert_eq!(version(0, 0, 1, TestMark::Stable, false).key(), 2048);
    assert_eq!(
        version(3, 4, 3, TestMark::Rc(6), true).key(),
        ((((3 * 256 + 4) * 256 + 3) * 4 + 3) * 256 + 6) * 2 + 1
    );
    assert_eq!(version(255, 255, 255, TestMark::Rc(255), true).key(), (1u64 << 35) - 1);
}

#[test]
fn key_tells_versions_apart() {
    let mut seen = std::collections::HashSet::new();
    for n in [0u8, 1, 2, 255] {
        for testmark in [TestMark::Stable, TestMark::Alpha(n), TestMark::Beta(n), TestMark::Rc(n)] {
            for is_mono in [false, true] {
                for (a, b, c) in [(n, 0, 0), (0, n, 0), (0, 0, n), (n, n, n)] {
                    let v = version(a, b, c, testmark, is_mono);
                    let fresh = seen.insert(v);
                    let k = v.key();
                    let _ = fresh;
                    for w in seen.iter() {
                        assert_eq!(w.key() == k, *w == v);
                    }
                }
            }
        }
    }
}
