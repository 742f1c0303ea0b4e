use npm_time_machine::version::{Cmp, Version, cmp_version};
use npm_time_machine::parse::parse_version;

fn v(s: &str) -> Version {
    parse_version(s).expect("version should parse")
}

fn lt(a: &str, b: &str) {
    assert_eq!(cmp_version(&v(a), &v(b)), Cmp::Lt, "{} < {}", a, b);
    assert_eq!(cmp_version(&v(b), &v(a)), Cmp::Gt, "{} > {}", b, a);
}

#[test]
fn parse_version_fields() {
    let p = v("1.2.3");
    assert_eq!(p.major, 1);
    assert_eq!(p.minor, 2);
    assert_eq!(p.patch, 3);
    assert!(p.pre.is_empty());
    assert!(p.build.is_empty());
}

#[test]
fn parse_version_pre_and_build() {
    let p = v("1.2.3-alpha.7+nightly");
    assert_eq!(p.pre.len(), 2);
    assert!(!p.pre[0].numeric);
    assert_eq!(p.pre[0].text, b"alpha".to_vec());
    assert!(p.pre[1].numeric);
    assert_eq!(p.pre[1].text, b"7".to_vec());
    assert_eq!(p.build, b"nightly".to_vec());
}

#[test]
fn parse_version_rejects_garbage() {
    assert!(parse_version("1.q.r").is_none());
    assert!(parse_version("").is_none());
    assert!(parse_version("1.2").is_none());
}

#[test]
fn precedence_major_minor_patch() {
    lt("1.0.0", "2.0.0");
    lt("2.0.0", "2.1.0");
    lt("2.1.0", "2.1.1");
}

#[test]
fn precedence_pre_release_chain() {
    lt("1.0.0-alpha", "1.0.0-alpha.1");
    lt("1.0.0-alpha.1", "1.0.0-alpha.beta");
    lt("1.0.0-alpha.beta", "1.0.0-beta");
    lt("1.0.0-beta", "1.0.0-beta.2");
    lt("1.0.0-beta.2", "1.0.0-beta.11");
    lt("1.0.0-beta.11", "1.0.0-rc.1");
    lt("1.0.0-rc.1", "1.0.0");
}

#[test]
fn numeric_identifiers_compare_numerically() {
    lt("1.0.0-99", "1.0.0-100");
    lt("1.0.0-2", "1.0.0-11");
}

#[test]
fn build_metadata_does_not_affect_precedence() {
    assert_eq!(cmp_version(&v("1.0.0+a"), &v("1.0.0+b")), Cmp::Eq);
}

#[test]
fn equal_versions_compare_equal() {
    assert_eq!(cmp_version(&v("1.0.0-rc.1"), &v("1.0.0-rc.1")), Cmp::Eq);
}
