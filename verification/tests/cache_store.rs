use callux::cache::EventCache;
use callux::config::CacheConfig;
use callux::output::CalendarEvent;
use callux::time::LocalTime;
use std::time::{Duration, Instant};

fn at(secs: i64) -> LocalTime {
    LocalTime { utc_secs: secs, nanos: 0, offset_secs: 0 }
}

fn event(id: &str, start: i64) -> CalendarEvent {
    CalendarEvent {
        id: id.to_string(),
        title: format!("Event {}", id),
        description: None,
        start_time: at(start),
        end_time: at(start + 3600),
        calendar_name: "Personal".to_string(),
        calendar_color: "#1976d2".to_string(),
        all_day: false,
    }
}

fn roomy() -> EventCache {
    EventCache::new(&CacheConfig { ttl_seconds: 300, max_entries: 1000 })
}

fn wait(duration: Duration) {
    let begin = Instant::now();
    while begin.elapsed() < duration {
        std::hint::spin_loop();
    }
}

#[test]
fn stored_list_comes_back_equal_and_in_order() {
    let mut cache = roomy();
    let events = vec![event("b", 200), event("a", 100), event("c", 300)];
    cache.set("primary:7".to_string(), events.clone());
    assert_eq!(cache.get("primary:7"), Some(events));
}

#[test]
fn empty_list_is_a_value_of_its_own() {
    let mut cache = roomy();
    assert_eq!(cache.get(":7"), None);
    cache.set(":7".to_string(), Vec::new());
    assert_eq!(cache.get(":7"), Some(Vec::new()));
}

#[test]
fn unknown_key_misses() {
    let mut cache = roomy();
    cache.set("a:1".to_string(), vec![event("x", 1)]);
    assert_eq!(cache.get("a:2"), None);
}

#[test]
fn set_replaces_what_the_key_held() {
    let mut cache = roomy();
    cache.set("k:1".to_string(), vec![event("old", 1)]);
    cache.set("k:1".to_string(), vec![event("new", 2), event("newer", 3)]);
    assert_eq!(cache.get("k:1"), Some(vec![event("new", 2), event("newer", 3)]));
}

#[test]
fn invalidate_forgets_one_key_only() {
    let mut cache = roomy();
    cache.set("a:1".to_string(), vec![event("a", 1)]);
    cache.set("b:1".to_string(), vec![event("b", 2)]);
    cache.invalidate("a:1");
    assert_eq!(cache.get("a:1"), None);
    assert_eq!(cache.get("b:1"), Some(vec![event("b", 2)]));
    cache.invalidate("never-stored");
    assert_eq!(cache.get("b:1"), Some(vec![event("b", 2)]));
}

#[test]
fn clear_forgets_everything() {
    let mut cache = roomy();
    cache.set("a:1".to_string(), vec![event("a", 1)]);
    cache.set("b:1".to_string(), vec![event("b", 2)]);
    cache.clear();
    assert_eq!(cache.get("a:1"), None);
    assert_eq!(cache.get("b:1"), None);
}

#[test]
fn entry_expires_after_its_time_to_live() {
    let mut cache = EventCache::new(&CacheConfig { ttl_seconds: 1, max_entries: 10 });
    cache.set("a:1".to_string(), vec![event("a", 1)]);
    assert_eq!(cache.get("a:1"), Some(vec![event("a", 1)]));
    wait(Duration::from_millis(1300));
    assert_eq!(cache.get("a:1"), None);
}

#[test]
fn cache_of_capacity_zero_never_answers() {
    let mut cache = EventCache::new(&CacheConfig { ttl_seconds: 300, max_entries: 0 });
    cache.set("a:1".to_string(), vec![event("a", 1)]);
    assert_eq!(cache.get("a:1"), None);
}

#[test]
fn longest_accepted_time_to_live_builds() {
    let mut cache =
        EventCache::new(&CacheConfig { ttl_seconds: callux::cache::MAX_TTL_SECONDS, max_entries: 4 });
    cache.set("a:1".to_string(), vec![event("a", 1)]);
    assert_eq!(cache.get("a:1"), Some(vec![event("a", 1)]));
}

#[test]
fn cleared_cache_stores_again() {
    let mut cache = roomy();
    cache.set("a:1".to_string(), vec![event("a", 1)]);
    cache.clear();
    assert_eq!(cache.get("a:1"), None);
    cache.set("a:1".to_string(), vec![event("b", 2)]);
    assert_eq!(cache.get("a:1"), Some(vec![event("b", 2)]));
    cache.clear();
    cache.clear();
    assert_eq!(cache.get("a:1"), None);
}

#[test]
fn clear_forgets_what_was_stored_just_before() {
    let mut cache = roomy();
    for round in 0..200 {
        cache.set("k:1".to_string(), vec![event("x", round)]);
        cache.clear();
        assert_eq!(cache.get("k:1"), None);
    }
}

#[test]
fn cleared_cache_keeps_its_time_to_live_and_capacity() {
    let mut short = EventCache::new(&CacheConfig { ttl_seconds: 1, max_entries: 10 });
    short.clear();
    short.set("a:1".to_string(), vec![event("a", 1)]);
    assert_eq!(short.get("a:1"), Some(vec![event("a", 1)]));
    wait(Duration::from_millis(1300));
    assert_eq!(short.get("a:1"), None);
    let mut none = EventCache::new(&CacheConfig { ttl_seconds: 300, max_entries: 0 });
    none.clear();
    none.set("a:1".to_string(), vec![event("a", 1)]);
    assert_eq!(none.get("a:1"), None);
}
