use cliptown_world::health;
use cliptown_world::health::{health_label, Health, ABOUT_TO_GC_MAX_SECS, OFFLINE_MAX_SECS};

const NOW: i64 = 1_700_000_000;

#[test]
fn online_when_connected() {
    assert_eq!(health::derive(NOW, Some(NOW - 100), true, false), Health::Online);
    assert_eq!(health::derive(NOW, None, true, false), Health::Online);
}

#[test]
fn online_when_operator() {
    assert_eq!(health::derive(NOW, None, false, true), Health::Online);
    assert_eq!(health::derive(NOW, Some(NOW - 10_000_000), false, true), Health::Online);
}

#[test]
fn offline_when_disconnected_no_last_seen() {
    assert_eq!(health::derive(NOW, None, false, false), Health::Offline);
}

#[test]
fn recently_lost_within_5min() {
    assert_eq!(health::derive(NOW, Some(NOW - 1), false, false), Health::RecentlyLost);
    assert_eq!(health::derive(NOW, Some(NOW - 299), false, false), Health::RecentlyLost);
    assert_eq!(health::derive(NOW, Some(NOW - 300), false, false), Health::RecentlyLost);
}

#[test]
fn offline_after_5min() {
    assert_eq!(health::derive(NOW, Some(NOW - 301), false, false), Health::Offline);
    assert_eq!(health::derive(NOW, Some(NOW - OFFLINE_MAX_SECS), false, false), Health::Offline);
}

#[test]
fn about_to_gc_after_6_days() {
    assert_eq!(
        health::derive(NOW, Some(NOW - OFFLINE_MAX_SECS - 1), false, false),
        Health::AboutToGc
    );
    assert_eq!(
        health::derive(NOW, Some(NOW - ABOUT_TO_GC_MAX_SECS), false, false),
        Health::AboutToGc
    );
}

#[test]
fn offline_after_7_days() {
    assert_eq!(
        health::derive(NOW, Some(NOW - ABOUT_TO_GC_MAX_SECS - 1), false, false),
        Health::Offline
    );
}

#[test]
fn clock_skew_treated_as_online() {
    assert_eq!(health::derive(NOW, Some(NOW + 10), false, false), Health::Online);
}

#[test]
fn just_seen_is_recently_lost_not_online() {
    assert_eq!(health::derive(NOW, Some(NOW), false, false), Health::RecentlyLost);
}

#[test]
fn health_labels_are_snake_case() {
    assert_eq!(health_label(Health::Online), "online");
    assert_eq!(health_label(Health::RecentlyLost), "recently_lost");
    assert_eq!(health_label(Health::Offline), "offline");
    assert_eq!(health_label(Health::AboutToGc), "about_to_gc");
}
