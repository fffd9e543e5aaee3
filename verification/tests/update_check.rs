use cobalt::update::{is_newer, parse_version, release_outcome, Release, UpdateOutcome};

#[test]
fn parses_tags_and_plain_versions() {
    assert_eq!(parse_version("v0.1.0"), Some((0, 1, 0)));
    assert_eq!(parse_version("1.2.3"), Some((1, 2, 3)));
    assert_eq!(parse_version("v1.2.3-rc.1"), Some((1, 2, 3)));
    assert_eq!(parse_version("1.4"), Some((1, 4, 0)));
    assert_eq!(parse_version("nightly"), None);
}

#[test]
fn newer_comparison() {
    assert!(is_newer("v0.2.0", "0.1.0"));
    assert!(is_newer("v1.0.0", "0.9.9"));
    assert!(!is_newer("v0.1.0", "0.1.0"));
    assert!(!is_newer("v0.0.9", "0.1.0"));
    assert!(!is_newer("garbage", "0.1.0"));
}

#[test]
fn version_edge_cases() {
    assert_eq!(parse_version("  V2  "), Some((2, 0, 0)));
    assert_eq!(parse_version("vv1.2.3"), None);
    assert_eq!(parse_version("1.2.3.4"), None);
    assert_eq!(parse_version("1.2.3-beta.4"), Some((1, 2, 3)));
    assert_eq!(parse_version("1.2+build"), Some((1, 2, 0)));
    assert_eq!(parse_version("1..3"), None);
    assert_eq!(parse_version(""), None);
    assert_eq!(parse_version("18446744073709551616"), None);
    assert_eq!(parse_version("18446744073709551615"), Some((u64::MAX, 0, 0)));
}

#[test]
fn newer_is_a_strict_order() {
    let vs = ["0.1.0", "v0.2", "1.0.0-rc.1", "v1.0.1", "x"];
    for a in vs {
        assert!(!is_newer(a, a));
        for b in vs {
            assert!(!(is_newer(a, b) && is_newer(b, a)));
            for c in vs {
                if is_newer(a, b) && is_newer(b, c) {
                    assert!(is_newer(a, c));
                }
            }
        }
    }
}

fn release(tag: &str, draft: bool) -> Release {
    Release { tag_name: tag.to_string(), html_url: "https://example/rel".to_string(), body: None, draft, prerelease: false }
}

#[test]
fn release_outcomes() {
    match release_outcome(Ok(release("v1.2.0", false)), true, "1.1.0") {
        UpdateOutcome::Available { info, manual } => {
            assert_eq!(info.version, "1.2.0");
            assert_eq!(info.url, "https://example/rel");
            assert_eq!(info.notes, "");
            assert!(manual);
        }
        other => panic!("{other:?}"),
    }
    assert!(matches!(release_outcome(Ok(release("v1.1.0", false)), false, "1.1.0"), UpdateOutcome::UpToDate { manual: false }));
    match release_outcome(Ok(release("v9.0.0", true)), false, "1.1.0") {
        UpdateOutcome::Failed { error, .. } => assert_eq!(error, "latest release is a draft or pre-release"),
        other => panic!("{other:?}"),
    }
    match release_outcome(Err("offline".to_string()), true, "1.1.0") {
        UpdateOutcome::Failed { error, manual } => {
            assert_eq!(error, "offline");
            assert!(manual);
        }
        other => panic!("{other:?}"),
    }
}
