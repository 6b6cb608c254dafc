use npm_powertoys::classify::{
    classify, classify_versions, declared_minimum, latest_version, specifier_prefix, wildcard,
    Severity,
};
use npm_powertoys::error::UpdateError;
use npm_powertoys::specifier::parsable;
use npm_powertoys::version::Version;

#[test]
fn caret_range_with_newer_minor() {
    let c = classify("^1.0.0", "1.3.0").unwrap();
    assert!(c.update_available);
    assert_eq!(c.severity, Severity::Minor);
    assert!(!c.breaking);
    assert_eq!(c.formatted_latest, "^1.3.0");
}

#[test]
fn minor_step_below_one_is_breaking() {
    let c = classify("0.4.0", "0.5.0").unwrap();
    assert!(c.update_available);
    assert_eq!(c.severity, Severity::Minor);
    assert!(c.breaking);
    assert_eq!(c.formatted_latest, "0.5.0");
}

#[test]
fn wildcard_never_has_an_update() {
    let c = classify("*", "99.0.0").unwrap();
    assert!(!c.update_available);
    assert_eq!(c.severity, Severity::Unchanged);
    assert!(!c.breaking);
    // Not even the latest version is read.
    let c = classify("*", "no version at all").unwrap();
    assert!(!c.update_available);
}

#[test]
fn major_step() {
    let c = classify("^1.4.2", "2.0.0").unwrap();
    assert!(c.update_available);
    assert_eq!(c.severity, Severity::Major);
    assert!(c.breaking);
    assert_eq!(c.formatted_latest, "^2.0.0");
}

#[test]
fn major_step_wins_over_smaller_minor_and_patch() {
    let c = classify("1.9.9", "2.0.0").unwrap();
    assert_eq!(c.severity, Severity::Major);
    assert_eq!(c.formatted_latest, "2.0.0");
}

#[test]
fn patch_step() {
    let c = classify("~1.2.3", "1.2.9").unwrap();
    assert!(c.update_available);
    assert_eq!(c.severity, Severity::Patch);
    assert!(!c.breaking);
    assert_eq!(c.formatted_latest, "~1.2.9");
}

#[test]
fn patch_step_below_one_is_not_breaking() {
    let c = classify("0.4.0", "0.4.1").unwrap();
    assert_eq!(c.severity, Severity::Patch);
    assert!(!c.breaking);
}

#[test]
fn same_version_is_no_update() {
    let c = classify("1.0.0", "1.0.0").unwrap();
    assert!(!c.update_available);
    assert_eq!(c.severity, Severity::Unchanged);
    assert!(!c.breaking);
    assert_eq!(c.formatted_latest, "1.0.0");
}

#[test]
fn older_latest_is_no_update() {
    let c = classify("^2.1.0", "1.9.9").unwrap();
    assert!(!c.update_available);
    assert_eq!(c.severity, Severity::Unchanged);
    assert_eq!(c.formatted_latest, "^1.9.9");
    let c = classify("^2.1.0", "2.0.5").unwrap();
    assert!(!c.update_available);
}

#[test]
fn update_is_reported_exactly_when_latest_is_ahead() {
    let specifiers = ["^1.2.3", "~1.2.3", "1.2.3", ">=1.2.3", "=1.2.3"];
    let latest = ["0.9.0", "1.2.2", "1.2.3", "1.2.4", "1.3.0", "2.0.0"];
    for s in specifiers {
        let lowest = declared_minimum(s).unwrap();
        assert_eq!(lowest, Version::new(1, 2, 3));
        for l in latest {
            let version = latest_version(l).unwrap();
            let ahead = (version.major, version.minor, version.patch)
                > (lowest.major, lowest.minor, lowest.patch);
            assert_eq!(classify(s, l).unwrap().update_available, ahead);
        }
    }
}

#[test]
fn prefix_is_kept_or_absent() {
    assert_eq!(specifier_prefix("^1.0.0"), "^");
    assert_eq!(specifier_prefix("~1.0.0"), "~");
    assert_eq!(specifier_prefix(">=1.0.0"), ">");
    assert_eq!(specifier_prefix("1.0.0"), "");
    assert_eq!(specifier_prefix("0.4.0"), "");
    assert_eq!(specifier_prefix("*"), "*");
    assert_eq!(specifier_prefix(""), "");
    for (s, p) in [("^1.0.0", "^"), ("~1.0.0", "~"), ("1.0.0", "")] {
        let c = classify(s, "3.2.1").unwrap();
        assert_eq!(c.formatted_latest, format!("{}3.2.1", p));
    }
}

#[test]
fn wildcard_is_the_single_star() {
    assert!(wildcard("*"));
    assert!(!wildcard("**"));
    assert!(!wildcard(""));
    assert!(!wildcard("^1.0.0"));
    assert!(!wildcard("1.*"));
}

#[test]
fn unreadable_range_is_refused() {
    assert_eq!(classify("^banana", "1.0.0").err(), Some(UpdateError::RangeParseError));
    assert_eq!(declared_minimum("^banana"), Err(UpdateError::RangeParseError));
}

#[test]
fn unreadable_version_is_refused() {
    assert_eq!(classify("^1.0.0", "banana").err(), Some(UpdateError::VersionParseError));
    assert_eq!(classify("^1.0.0", "1.2").err(), Some(UpdateError::VersionParseError));
    assert_eq!(classify("^1.0.0", "").err(), Some(UpdateError::VersionParseError));
    assert_eq!(latest_version("1.2"), Err(UpdateError::VersionParseError));
}

#[test]
fn range_failure_is_reported_before_version_failure() {
    assert_eq!(classify("^banana", "banana").err(), Some(UpdateError::RangeParseError));
}

#[test]
fn lowest_version_of_a_range() {
    assert_eq!(declared_minimum("^1.2.3"), Ok(Version::new(1, 2, 3)));
    assert_eq!(declared_minimum("~0.4.1"), Ok(Version::new(0, 4, 1)));
    assert_eq!(declared_minimum(">1.2.3"), Ok(Version::new(1, 2, 4)));
    assert_eq!(declared_minimum(">=1.2.3 <2.0.0"), Ok(Version::new(1, 2, 3)));
    assert_eq!(declared_minimum("<2.0.0"), Ok(Version::new(0, 0, 0)));
    assert_eq!(declared_minimum("1.x"), Ok(Version::new(1, 0, 0)));
    assert_eq!(declared_minimum("*"), Ok(Version::new(0, 0, 0)));
}

#[test]
fn exact_version_keeps_the_three_numbers() {
    assert_eq!(latest_version("1.2.3"), Ok(Version::new(1, 2, 3)));
    assert_eq!(latest_version("10.20.30"), Ok(Version::new(10, 20, 30)));
    assert_eq!(latest_version("1.2.3-beta.1"), Ok(Version::new(1, 2, 3)));
    assert_eq!(latest_version("1.2.3+build.5"), Ok(Version::new(1, 2, 3)));
}

#[test]
fn versions_are_compared_from_the_left() {
    let min = Version::new(1, 5, 9);
    let cases = [
        ((2, 0, 0), true, Severity::Major, true),
        ((2, 9, 9), true, Severity::Major, true),
        ((1, 6, 0), true, Severity::Minor, false),
        ((1, 5, 10), true, Severity::Patch, false),
        ((1, 5, 9), false, Severity::Unchanged, false),
        ((1, 4, 99), false, Severity::Unchanged, false),
        ((0, 99, 99), false, Severity::Unchanged, false),
    ];
    for ((a, b, c), update, severity, breaking) in cases {
        let got = classify_versions("^", &min, &Version::new(a, b, c));
        assert_eq!(got.update_available, update);
        assert_eq!(got.severity, severity);
        assert_eq!(got.breaking, breaking);
        assert_eq!(got.formatted_latest, format!("^{}.{}.{}", a, b, c));
    }
}

#[test]
fn breaking_depends_on_the_declared_major() {
    let got = classify_versions("", &Version::new(0, 1, 0), &Version::new(0, 2, 0));
    assert_eq!(got.severity, Severity::Minor);
    assert!(got.breaking);
    let got = classify_versions("", &Version::new(0, 1, 0), &Version::new(1, 0, 0));
    assert_eq!(got.severity, Severity::Major);
    assert!(got.breaking);
    let got = classify_versions("", &Version::new(3, 1, 0), &Version::new(3, 2, 0));
    assert_eq!(got.severity, Severity::Minor);
    assert!(!got.breaking);
}

#[test]
fn equals_before_a_wildcard_is_refused() {
    for s in ["=*", "=x", "=X", "= X", "=\t*", "=v*", "=v x", "= v x", "=x.1.2", "=*.0.0"] {
        assert!(!parsable(s), "{:?}", s);
        assert_eq!(declared_minimum(s), Err(UpdateError::RangeParseError), "{:?}", s);
        assert_eq!(classify(s, "1.0.0").err(), Some(UpdateError::RangeParseError), "{:?}", s);
    }
}

#[test]
fn tilde_before_a_wildcard_is_refused() {
    let refused = [
        "~*", "~x", "~X", "~ *", "~>x", "~> *", "~ > v x", "~1.x.3", "~1.*.0", "~>1.*.0",
        "~>1.X.25", "~v1.x.3", "~12.x.3-beta",
    ];
    for s in refused {
        assert!(!parsable(s), "{:?}", s);
        assert_eq!(declared_minimum(s), Err(UpdateError::RangeParseError), "{:?}", s);
        assert_eq!(classify(s, "1.0.0").err(), Some(UpdateError::RangeParseError), "{:?}", s);
    }
}

#[test]
fn a_refused_piece_anywhere_refuses_the_text() {
    for s in ["1.0.0 || =*", "1.0.0 ||=x", "^1.0.0 ~x", ">=1.0.0\t~1.x.3", " =*", "2.x || ~*"] {
        assert!(!parsable(s), "{:?}", s);
        assert_eq!(declared_minimum(s), Err(UpdateError::RangeParseError), "{:?}", s);
    }
}

#[test]
fn wildcards_elsewhere_are_read() {
    assert_eq!(declared_minimum("x"), Ok(Version::new(0, 0, 0)));
    assert_eq!(declared_minimum("1.x"), Ok(Version::new(1, 0, 0)));
    assert_eq!(declared_minimum("1.2.x"), Ok(Version::new(1, 2, 0)));
    assert_eq!(declared_minimum("1.2.*"), Ok(Version::new(1, 2, 0)));
    assert_eq!(declared_minimum("~1.2.x"), Ok(Version::new(1, 2, 0)));
    assert_eq!(declared_minimum("~1.x"), Ok(Version::new(1, 0, 0)));
    assert_eq!(declared_minimum("~1.x.x"), Ok(Version::new(1, 0, 0)));
    assert_eq!(declared_minimum("~>1.2"), Ok(Version::new(1, 2, 0)));
    assert_eq!(declared_minimum("=1.x"), Ok(Version::new(1, 0, 0)));
    assert_eq!(declared_minimum("=1.2.3"), Ok(Version::new(1, 2, 3)));
    assert_eq!(declared_minimum(">=x"), Ok(Version::new(0, 0, 0)));
    assert_eq!(declared_minimum(">=*"), Ok(Version::new(0, 0, 0)));
    assert_eq!(declared_minimum("^1.x"), Ok(Version::new(1, 0, 0)));
    assert_eq!(declared_minimum("~1.2.3 || =2.x"), Ok(Version::new(1, 2, 3)));
}

#[test]
fn texts_that_the_parser_can_take() {
    let taken = [
        "", "*", "x", "1.x", "~1.2.x", "~1.x", "~1.x.x", "=1.x", "=1.2.3", ">=x", "<=*", ">= *",
        "^x", "^*", "1.0.0=x", "1.0.0~x", "a=*", "~1.2.3", "~>1.2.3", "~1.x.", "~1.x.y", "~.x.3",
        "=", "~", "= v", "~ >",
    ];
    for s in taken {
        assert!(parsable(s), "{:?}", s);
        // The parser returns on each of them, with a range or without.
        let _ = declared_minimum(s);
    }
    for s in ["<=x", "<= *", ">=v*", "<x", ">*"] {
        assert!(parsable(s), "{:?}", s);
        let _ = declared_minimum(s);
    }
}

#[test]
fn a_piece_starts_behind_a_blank_or_a_bar() {
    assert!(!parsable("|=x"));
    assert!(!parsable("1 =x"));
    assert!(!parsable("1\t~x"));
    assert!(parsable("1=x"));
    assert!(parsable("1-~x"));
    assert!(parsable("<==x"));
}
