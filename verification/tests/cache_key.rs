use callux::cache::EventCache;
use callux::config::CacheConfig;

fn cache() -> EventCache {
    EventCache::new(&CacheConfig { ttl_seconds: 300, max_entries: 10 })
}

#[test]
fn key_joins_ids_and_days() {
    let ids = vec!["primary".to_string(), "work@example.com".to_string()];
    assert_eq!(cache().generate_key(&ids, 7), "primary,work@example.com:7");
}

#[test]
fn key_of_no_calendars() {
    let ids: Vec<String> = Vec::new();
    assert_eq!(cache().generate_key(&ids, 3), ":3");
}

#[test]
fn key_of_negative_and_extreme_days() {
    let ids = vec!["a".to_string()];
    assert_eq!(cache().generate_key(&ids, -12), "a:-12");
    assert_eq!(cache().generate_key(&ids, 0), "a:0");
    assert_eq!(cache().generate_key(&ids, i64::MIN), "a:-9223372036854775808");
    assert_eq!(cache().generate_key(&ids, i64::MAX), "a:9223372036854775807");
}

#[test]
fn key_differs_by_days() {
    let ids = vec!["a".to_string(), "b".to_string()];
    assert_ne!(cache().generate_key(&ids, 1), cache().generate_key(&ids, 2));
}

#[test]
fn key_depends_on_calendar_order() {
    let ab = vec!["a".to_string(), "b".to_string()];
    let ba = vec!["b".to_string(), "a".to_string()];
    assert_eq!(cache().generate_key(&ab, 1), "a,b:1");
    assert_eq!(cache().generate_key(&ba, 1), "b,a:1");
}
