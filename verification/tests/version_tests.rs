use msixvc::version::Version;
use std::cmp::Ordering;

#[test]
fn test_version_cmp() {
    let lower = Version {
        major: 1,
        minor: 26,
        patch: 3005,
        build: 0,
    };
    let higher = Version {
        major: 1,
        minor: 26,
        patch: 3101,
        build: 0,
    };
    let other_high = Version {
        major: 1,
        minor: 26,
        patch: 3101,
        build: 0,
    };
    let other_high2 = Version {
        major: 2,
        minor: 26,
        patch: 3101,
        build: 0,
    };

    assert!(lower < higher);
    assert!(higher > lower);
    assert!(higher == other_high);
    assert!(other_high2 > other_high);
}

#[test]
fn version_parse_reads_build_first() {
    // build 0, patch 3005, minor 26, major 1
    let bytes = [0u8, 0, 0xBD, 0x0B, 26, 0, 1, 0];
    let v = Version::parse(&bytes);
    assert_eq!(v, Version { major: 1, minor: 26, patch: 3005, build: 0 });
}

#[test]
fn version_text_is_dotted_decimal() {
    let v = Version { major: 1, minor: 26, patch: 3005, build: 0 };
    assert_eq!(v.to_version_string(), "1.26.3005.0");
    let w = Version { major: 65535, minor: 10, patch: 9, build: 100 };
    assert_eq!(w.to_version_string(), "65535.10.9.100");
}

#[test]
fn version_compare_goes_component_by_component() {
    let a = Version { major: 1, minor: 2, patch: 3, build: 4 };
    let b = Version { major: 1, minor: 2, patch: 3, build: 5 };
    let c = Version { major: 1, minor: 3, patch: 0, build: 0 };
    assert_eq!(a.compare(&b), Ordering::Less);
    assert_eq!(b.compare(&a), Ordering::Greater);
    assert_eq!(a.compare(&a), Ordering::Equal);
    assert_eq!(b.compare(&c), Ordering::Less);
    assert!(a < c && b < c);
    assert_eq!(a.cmp(&b), Ordering::Less);
}
