use npm_time_machine::changes::Changes;
use npm_time_machine::dates::Date;
use npm_time_machine::machine::{find_changes, resolve_one};
use npm_time_machine::parse::{parse_comparator, parse_timestamp, parse_version};
use npm_time_machine::pkg_reader::PkgReader;
use npm_time_machine::registry::Registry;
use npm_time_machine::version::Version;

fn v(s: &str) -> Version {
    parse_version(s).expect("version should parse")
}

fn pairs(entries: &[(&str, &str)]) -> Vec<(String, String)> {
    entries.iter().map(|(a, b)| (a.to_string(), b.to_string())).collect()
}

fn left_pad_registry() -> Registry {
    let mut registry = Registry::new();
    registry.load(
        "left-pad",
        Some(pairs(&[
            ("1.0.0", "2016-01-01T00:00:00Z"),
            ("1.1.0", "2016-06-01T00:00:00Z"),
            ("2.0.0", "2020-01-01T00:00:00Z"),
        ])),
    );
    registry
}

fn date(year: i32, month: u8, day: u8) -> Date {
    Date { year, month, day }
}

#[test]
fn timestamp_parsing() {
    let t = parse_timestamp("2020-01-01T12:30:00Z").expect("timestamp should parse");
    assert_eq!((t.year, t.month, t.day), (2020, 1, 1));
    // The calendar date is taken in the reported offset; the instant is global.
    let local = parse_timestamp("2020-01-01T23:00:00-02:00").expect("timestamp should parse");
    assert_eq!((local.year, local.month, local.day), (2020, 1, 1));
    let utc = parse_timestamp("2020-01-02T01:00:00Z").expect("timestamp should parse");
    assert_eq!(local.unix_seconds, utc.unix_seconds);
    assert!(parse_timestamp("not a time").is_none());
}

#[test]
fn get_latest_filters_date_and_pre_releases() {
    let mut registry = Registry::new();
    registry.load(
        "pkg",
        Some(pairs(&[
            ("1.0.0", "2016-01-01T00:00:00Z"),
            ("2.0.0-beta.1", "2016-02-01T00:00:00Z"),
            ("1.5.0", "2016-03-01T00:00:00Z"),
            ("3.0.0", "2020-01-01T00:00:00Z"),
        ])),
    );
    // The pre-release never answers the date query; 3.0.0 is past the cutoff.
    assert_eq!(registry.get_latest("pkg", date(2017, 1, 1)), Some(v("1.5.0")));
    // On the publish date itself the release counts.
    assert_eq!(registry.get_latest("pkg", date(2016, 1, 1)), Some(v("1.0.0")));
    // Before any release there is no answer.
    assert_eq!(registry.get_latest("pkg", date(2015, 12, 31)), None);
}

#[test]
fn get_latest_drops_unparsable_records() {
    let mut registry = Registry::new();
    registry.load(
        "pkg",
        Some(pairs(&[
            ("created", "2016-01-01T00:00:00Z"),
            ("1.0.0", "not a timestamp"),
            ("1.2.0", "2016-05-01T00:00:00Z"),
        ])),
    );
    assert_eq!(registry.get_latest("pkg", date(2017, 1, 1)), Some(v("1.2.0")));
}

#[test]
fn get_latest_on_malformed_body_is_none() {
    let mut registry = Registry::new();
    registry.load("pkg", None);
    assert_eq!(registry.get_latest("pkg", date(2017, 1, 1)), None);
}

#[test]
fn get_latest_matching_takes_maximum() {
    let registry = left_pad_registry();
    let range = parse_comparator("^1.0.0").unwrap();
    assert_eq!(registry.get_latest_matching("left-pad", &range), Some(v("1.1.0")));
    let none = parse_comparator("^3.0.0").unwrap();
    assert_eq!(registry.get_latest_matching("left-pad", &none), None);
}

#[test]
fn get_latest_matching_keeps_pre_releases() {
    // The range query, unlike the date query, does not exclude pre-releases.
    let mut registry = Registry::new();
    registry.load(
        "pkg",
        Some(pairs(&[
            ("1.2.3-alpha", "2016-01-01T00:00:00Z"),
            ("1.2.3-beta", "2016-02-01T00:00:00Z"),
        ])),
    );
    let range = parse_comparator("^1.2.3-alpha").unwrap();
    assert_eq!(registry.get_latest_matching("pkg", &range), Some(v("1.2.3-beta")));
}

#[test]
fn scenario_outdated_range_records_change() {
    // left-pad at ^1.0.0; at the target date the historical latest is 2.0.0,
    // which strictly exceeds 1.1.0, the latest the range allows, so the
    // historical latest is proposed as the pin.
    let registry = left_pad_registry();
    let range = parse_comparator("^1.0.0").unwrap();
    assert_eq!(registry.get_latest("left-pad", date(2021, 1, 1)), Some(v("2.0.0")));
    assert_eq!(registry.get_latest_matching("left-pad", &range), Some(v("1.1.0")));
    let decision = resolve_one(&registry, "left-pad", date(2021, 1, 1), &range);
    assert_eq!(decision, Some(v("2.0.0")));

    let mut changes = Changes::new();
    let deps = vec![("left-pad".to_string(), range)];
    find_changes(&registry, &deps, date(2021, 1, 1), &mut changes);
    let drained = changes.drain();
    assert_eq!(drained.len(), 1);
    assert_eq!(drained[0].0, "left-pad");
    assert_eq!(drained[0].1, v("2.0.0"));
}

#[test]
fn scenario_before_first_release_skips() {
    let registry = left_pad_registry();
    let range = parse_comparator("^1.0.0").unwrap();
    let decision = resolve_one(&registry, "left-pad", date(2015, 1, 1), &range);
    assert_eq!(decision, None);

    let mut changes = Changes::new();
    let deps = vec![("left-pad".to_string(), range)];
    find_changes(&registry, &deps, date(2015, 1, 1), &mut changes);
    assert_eq!(changes.drain().len(), 0);
}

#[test]
fn scenario_range_already_permits_latest() {
    // At a date before 2.0.0 the latest release equals the latest the range
    // allows; the strict-greater check fails and nothing is recorded.
    let registry = left_pad_registry();
    let range = parse_comparator("^1.0.0").unwrap();
    let decision = resolve_one(&registry, "left-pad", date(2017, 1, 1), &range);
    assert_eq!(decision, None);

    let mut changes = Changes::new();
    let deps = vec![("left-pad".to_string(), range)];
    find_changes(&registry, &deps, date(2017, 1, 1), &mut changes);
    assert_eq!(changes.drain().len(), 0);
}

#[test]
fn get_latest_with_only_pre_releases_is_none() {
    let mut registry = Registry::new();
    registry.load(
        "pkg",
        Some(pairs(&[
            ("1.0.0-alpha", "2016-01-01T00:00:00Z"),
            ("1.0.0-beta", "2016-02-01T00:00:00Z"),
        ])),
    );
    assert_eq!(registry.get_latest("pkg", date(2017, 1, 1)), None);
}

#[test]
fn get_latest_breaks_precedence_ties_by_publish_instant() {
    // Two releases of equal precedence (build metadata does not count):
    // the later publish instant wins.
    let mut registry = Registry::new();
    registry.load(
        "pkg",
        Some(pairs(&[
            ("1.0.0+late", "2016-06-01T00:00:00Z"),
            ("1.0.0+early", "2016-01-01T00:00:00Z"),
        ])),
    );
    assert_eq!(registry.get_latest("pkg", date(2017, 1, 1)), Some(v("1.0.0+late")));
}

#[test]
fn reload_overwrites_history() {
    let mut registry = Registry::new();
    registry.load("pkg", Some(pairs(&[("1.0.0", "2016-01-01T00:00:00Z")])));
    registry.load("pkg", Some(pairs(&[("2.0.0", "2016-01-01T00:00:00Z")])));
    assert_eq!(registry.get_latest("pkg", date(2017, 1, 1)), Some(v("2.0.0")));
}

#[test]
fn changes_insert_overwrites() {
    let mut changes = Changes::new();
    changes.insert("pkg".to_string(), v("1.0.0"));
    changes.insert("pkg".to_string(), v("1.1.0"));
    assert_eq!(changes.get("pkg"), Some(&v("1.1.0")));
    let drained = changes.drain();
    assert_eq!(drained.len(), 1);
    assert_eq!(drained[0].1, v("1.1.0"));
}

#[test]
fn pkg_reader_parses_declarations() {
    let reader = PkgReader::new(&pairs(&[("left-pad", "^1.0.0"), ("react", "~16.8")]))
        .expect("ranges should parse");
    let mut deps = reader.dependencies();
    deps.sort();
    assert_eq!(deps, vec!["left-pad".to_string(), "react".to_string()]);
    assert_eq!(reader.comparator("left-pad"), &parse_comparator("^1.0.0").unwrap());
    assert_eq!(reader.comparator("react"), &parse_comparator("~16.8").unwrap());
}

#[test]
fn manifest_to_changes_end_to_end() {
    // Declarations come from a manifest, histories from the registry, and
    // the resolve phase records exactly the dependencies whose historical
    // latest exceeds their range.
    let reader = PkgReader::new(&pairs(&[("left-pad", "^1.0.0"), ("fresh", "^2.0.0")]))
        .expect("ranges should parse");
    let mut registry = left_pad_registry();
    registry.load(
        "fresh",
        Some(pairs(&[
            ("2.0.0", "2019-01-01T00:00:00Z"),
            ("2.1.0", "2020-06-01T00:00:00Z"),
        ])),
    );
    let mut changes = Changes::new();
    find_changes(&registry, reader.entries(), date(2021, 1, 1), &mut changes);
    let drained = changes.drain();
    // left-pad: historical latest 2.0.0 exceeds ^1.0.0 and is pinned;
    // fresh: ^2.0.0 already admits its historical latest 2.1.0, no change.
    assert_eq!(drained.len(), 1);
    assert_eq!(drained[0].0, "left-pad");
    assert_eq!(drained[0].1, v("2.0.0"));
}

#[test]
fn pkg_reader_rejects_bad_range() {
    assert!(PkgReader::new(&pairs(&[("left-pad", "what")])).is_none());
}
