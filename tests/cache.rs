use cde::cache::{list_cache, set_cache};
use cde::profile::CURRENT_PROFILE_KEY;
use redb::backends::InMemoryBackend;
use redb::Database;

fn fresh() -> Database {
    Database::builder().create_with_backend(InMemoryBackend::new()).unwrap()
}

fn listed(db: &Database) -> Vec<(String, String)> {
    list_cache(db).ok().unwrap()
}

#[test]
fn fresh_store_lists_nothing() {
    let db = fresh();
    assert!(listed(&db).is_empty());
}

#[test]
fn last_write_wins() {
    let mut db = fresh();
    assert!(set_cache(&mut db, "k", "v1").is_ok());
    assert!(set_cache(&mut db, "k", "v2").is_ok());
    assert_eq!(listed(&db), vec![("k".to_string(), "v2".to_string())]);
}

#[test]
fn repeated_write_lists_as_one() {
    let mut db = fresh();
    assert!(set_cache(&mut db, "a", "1").is_ok());
    let once = listed(&db);
    assert!(set_cache(&mut db, "a", "1").is_ok());
    assert_eq!(listed(&db), once);
}

#[test]
fn listing_is_in_key_order() {
    let mut db = fresh();
    for (k, v) in [("zeta", "1"), ("alpha", "2"), (CURRENT_PROFILE_KEY, "aws:prod"), ("beta", "3")] {
        assert!(set_cache(&mut db, k, v).is_ok());
    }
    let keys: Vec<String> = listed(&db).into_iter().map(|(k, _)| k).collect();
    assert_eq!(keys, vec!["alpha", "beta", "current_profile", "zeta"]);
}
