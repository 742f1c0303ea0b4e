use npm_time_machine::cache::{MemoPlan, get_cache_file, memo_plan};
use npm_time_machine::parse::{parse_timestamp, parse_version};
use npm_time_machine::permits::PermitPool;
use npm_time_machine::registry::VersionRecord;

#[test]
fn cache_file_joins_directory_and_key() {
    let path = get_cache_file("react.vit");
    assert_eq!(path, b".npm_time_machine_cache/react.vit".to_vec());
}

#[test]
fn cache_file_escapes_path_separators() {
    let path = get_cache_file("@babel/core.vit");
    assert_eq!(path, b".npm_time_machine_cache/@babel||core.vit".to_vec());
}

fn record(version: &str, published: &str) -> VersionRecord {
    VersionRecord {
        version: parse_version(version).unwrap(),
        published: parse_timestamp(published).unwrap(),
    }
}

#[test]
fn memo_plan_uses_store_only_when_enabled() {
    let stored = vec![record("1.0.0", "2016-01-01T00:00:00Z")];
    match memo_plan(true, Some(stored)) {
        MemoPlan::UseCached(v) => {
            assert_eq!(v.len(), 1);
            assert_eq!(v[0].version, parse_version("1.0.0").unwrap());
        },
        MemoPlan::Fetch => panic!("an enabled cache with a stored value must be used"),
    }
    let stored = vec![record("1.0.0", "2016-01-01T00:00:00Z")];
    assert!(matches!(memo_plan(false, Some(stored)), MemoPlan::Fetch));
    assert!(matches!(memo_plan(true, None), MemoPlan::Fetch));
}

#[test]
fn permit_pool_bounds_concurrency() {
    let mut pool = PermitPool::new(4);
    for _ in 0..4 {
        assert!(pool.try_acquire());
        assert!(pool.in_flight() <= pool.capacity());
    }
    // The pool is full: a fifth call must wait.
    assert!(!pool.try_acquire());
    assert_eq!(pool.in_flight(), 4);
    pool.release();
    assert_eq!(pool.in_flight(), 3);
    assert!(pool.try_acquire());
    assert!(!pool.try_acquire());
}
