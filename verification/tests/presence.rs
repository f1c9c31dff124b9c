use cliptown_world::presence::{drop_entry, gc, new_registry, snapshot, upsert, PRESENCE_TTL_SECS};

#[test]
fn upsert_reports_new_operators_and_focus_changes() {
    let mut reg = new_registry();
    assert!(upsert(&mut reg, "op1", "Ann", "admin", None, 100));
    assert!(!upsert(&mut reg, "op1", "Ann", "admin", None, 130));
    assert_eq!(reg.entries[0].last_seen_at, 130);
    assert!(upsert(&mut reg, "op1", "Ann", "admin", Some("S1".into()), 160));
    assert!(!upsert(&mut reg, "op1", "Ann", "admin", Some("S1".into()), 190));
    assert!(upsert(&mut reg, "op2", "Bo", "viewer", None, 190));
    let s = snapshot(&reg);
    assert_eq!(s.len(), 2);
    assert_eq!(s[0].focused_startup_id.as_deref(), Some("S1"));
    assert_eq!(s[1].operator_name, "Bo");
}

#[test]
fn gc_drops_entries_past_the_ttl() {
    let mut reg = new_registry();
    upsert(&mut reg, "old", "O", "viewer", None, 1000);
    upsert(&mut reg, "edge", "E", "viewer", None, 1010);
    upsert(&mut reg, "fresh", "F", "viewer", None, 1090);
    let now = 1010 + PRESENCE_TTL_SECS;
    assert_eq!(gc(&mut reg, now), 1);
    let ids: Vec<&str> = reg.entries.iter().map(|e| e.operator_id.as_str()).collect();
    assert_eq!(ids, vec!["edge", "fresh"]);
    assert_eq!(gc(&mut reg, now), 0);
}

#[test]
fn drop_entry_reports_presence() {
    let mut reg = new_registry();
    upsert(&mut reg, "a", "A", "viewer", None, 1);
    upsert(&mut reg, "b", "B", "viewer", None, 1);
    assert!(drop_entry(&mut reg, "a"));
    assert!(!drop_entry(&mut reg, "a"));
    assert_eq!(reg.entries.len(), 1);
    assert_eq!(reg.entries[0].operator_id, "b");
}
