use lottery::cache::AttendeeCache;
use lottery::model::Profile;

fn profile(first_name: &str, last_name: &str) -> Profile {
    Profile { first_name: String::from(first_name), last_name: String::from(last_name) }
}

#[test]
fn new_cache_holds_nothing() {
    assert_eq!(AttendeeCache::new().read(), None);
}

#[test]
fn read_returns_what_was_published() {
    let mut cache = AttendeeCache::new();
    cache.publish(Some(vec![profile("A", "A"), profile("B", "B")]));
    assert_eq!(cache.read(), Some(vec![profile("A", "A"), profile("B", "B")]));
}

#[test]
fn read_twice_returns_the_same() {
    let mut cache = AttendeeCache::new();
    assert_eq!(cache.read(), cache.read());
    cache.publish(Some(vec![profile("A", "A")]));
    let first = cache.read();
    let second = cache.read();
    assert_eq!(first, second);
    assert_eq!(second, Some(vec![profile("A", "A")]));
}

#[test]
fn publish_replaces_the_whole_snapshot() {
    let mut cache = AttendeeCache::new();
    cache.publish(Some(vec![profile("A", "A"), profile("B", "B"), profile("C", "C")]));
    cache.publish(Some(vec![profile("D", "D")]));
    assert_eq!(cache.read(), Some(vec![profile("D", "D")]));
}

#[test]
fn publish_of_nothing_empties_the_cache() {
    let mut cache = AttendeeCache::new();
    cache.publish(Some(vec![profile("A", "A")]));
    cache.publish(None);
    assert_eq!(cache.read(), None);
}

#[test]
fn an_empty_list_is_not_nothing() {
    let mut cache = AttendeeCache::new();
    cache.publish(Some(Vec::new()));
    assert_eq!(cache.read(), Some(Vec::new()));
}

#[test]
fn a_read_snapshot_is_a_copy() {
    let mut cache = AttendeeCache::new();
    cache.publish(Some(vec![profile("A", "A")]));
    let mut taken = cache.read().unwrap();
    taken.push(profile("B", "B"));
    assert_eq!(cache.read(), Some(vec![profile("A", "A")]));
}

#[test]
fn a_shared_cache_is_read_whole() {
    let cache = std::sync::Arc::new(std::sync::Mutex::new(AttendeeCache::new()));
    let first: Vec<Profile> = (0..50).map(|_| profile("A", "A")).collect();
    let second: Vec<Profile> = (0..70).map(|_| profile("B", "B")).collect();
    for round in 0..200 {
        let snapshot = if round % 2 == 0 { first.clone() } else { second.clone() };
        cache.lock().unwrap().publish(Some(snapshot));
        let seen = cache.lock().unwrap().read().unwrap();
        let whole_first = seen.len() == 50 && seen.iter().all(|p| p.first_name == "A");
        let whole_second = seen.len() == 70 && seen.iter().all(|p| p.first_name == "B");
        assert!(whole_first || whole_second);
    }
}
