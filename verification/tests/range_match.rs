use npm_time_machine::parse::{parse_comparator, parse_version};
use npm_time_machine::range::{Comparator, RangeOp};
use npm_time_machine::version::Version;

fn c(s: &str) -> Comparator {
    parse_comparator(s).expect("comparator should parse")
}

fn v(s: &str) -> Version {
    parse_version(s).expect("version should parse")
}

#[test]
fn parse_comparator_fields() {
    let caret = c("^1.0.0");
    assert_eq!(caret.op, RangeOp::Caret);
    assert_eq!(caret.major, 1);
    assert_eq!(caret.minor, Some(0));
    assert_eq!(caret.patch, Some(0));
    assert!(caret.pre.is_empty());

    let partial = c("~2.3");
    assert_eq!(partial.op, RangeOp::Tilde);
    assert_eq!(partial.major, 2);
    assert_eq!(partial.minor, Some(3));
    assert_eq!(partial.patch, None);
}

#[test]
fn parse_comparator_rejects_garbage() {
    assert!(parse_comparator("not a range").is_none());
    assert!(parse_comparator("").is_none());
}

#[test]
fn caret_matches() {
    let r = c("^1.2.3");
    assert!(r.matches(&v("1.2.3")));
    assert!(r.matches(&v("1.9.0")));
    assert!(!r.matches(&v("1.2.2")));
    assert!(!r.matches(&v("2.0.0")));
    assert!(!r.matches(&v("0.9.9")));
}

#[test]
fn caret_on_zero_major_stays_in_minor() {
    let r = c("^0.2.3");
    assert!(r.matches(&v("0.2.4")));
    assert!(!r.matches(&v("0.3.0")));
}

#[test]
fn tilde_matches() {
    let r = c("~1.2.3");
    assert!(r.matches(&v("1.2.9")));
    assert!(!r.matches(&v("1.3.0")));
    assert!(!r.matches(&v("1.2.2")));
}

#[test]
fn exact_and_comparison_ops() {
    assert!(c("=1.2.3").matches(&v("1.2.3")));
    assert!(!c("=1.2.3").matches(&v("1.2.4")));
    assert!(c(">1.2.3").matches(&v("1.2.4")));
    assert!(!c(">1.2.3").matches(&v("1.2.3")));
    assert!(c(">=1.2.3").matches(&v("1.2.3")));
    assert!(c("<2.0.0").matches(&v("1.9.9")));
    assert!(!c("<2.0.0").matches(&v("2.0.0")));
    assert!(c("<=2.0.0").matches(&v("2.0.0")));
}

#[test]
fn wildcard_major_matches_only_that_major() {
    let r = c("1.*");
    assert!(r.matches(&v("1.4.7")));
    assert!(!r.matches(&v("2.0.0")));
}

#[test]
fn pre_release_needs_matching_triple() {
    let r = c("^1.2.3-alpha");
    assert!(r.matches(&v("1.2.3-beta")));
    assert!(!r.matches(&v("1.2.4-beta")));
    assert!(r.matches(&v("1.3.0")));
}

#[test]
fn plain_range_rejects_pre_release() {
    let r = c("^1.0.0");
    assert!(!r.matches(&v("1.0.1-alpha")));
    assert!(r.matches(&v("1.0.1")));
}
