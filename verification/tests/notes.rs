use hook_core::notes::{
    TempNotes, DEFAULT_TTL, MAX_TEMP_NOTES_PER_HOOK, MAX_TTL, MIN_TTL, TEMP_PREFIX,
};
use std::time::Duration;

const NOW: u128 = 1_000_000_000_000;

fn secs(n: u64) -> u128 {
    Duration::from_secs(n).as_nanos()
}

fn millis(n: u64) -> u128 {
    Duration::from_millis(n).as_nanos()
}

#[test]
fn create_get_and_hook_scoping() {
    let mut notes = TempNotes::new();

    let id = notes.create("hookA", "hello".to_owned(), secs(60), NOW).unwrap();
    assert!(id.starts_with(TEMP_PREFIX));

    assert_eq!(notes.get(&id, "hookA", NOW), Some("hello".to_owned()));
    // Wrong hook id -> not found, even though the note id is right.
    assert_eq!(notes.get(&id, "hookB", NOW), None);
    // Unknown id -> not found.
    assert_eq!(notes.get("t_doesnotexist", "hookA", NOW), None);
}

#[test]
fn expiry_is_enforced_lazily() {
    let mut notes = TempNotes::new();
    let id = notes.create("hookA", "bye".to_owned(), millis(10), NOW).unwrap();
    assert_eq!(notes.get(&id, "hookA", NOW + millis(50)), None);
}

#[test]
fn sweep_removes_expired_entries() {
    let mut notes = TempNotes::new();
    notes.create("hookA", "short-lived".to_owned(), millis(10), NOW).unwrap();
    notes.create("hookA", "long-lived".to_owned(), secs(60), NOW).unwrap();
    assert_eq!(notes.sweep(NOW + millis(50)), 1);
    assert_eq!(notes.len(), 1);
}

#[test]
fn per_hook_cap_is_enforced() {
    let mut notes = TempNotes::new();
    for _ in 0..MAX_TEMP_NOTES_PER_HOOK {
        notes.create("hookA", "x".to_owned(), secs(60), NOW).unwrap();
    }
    // One more over the cap is rejected...
    assert!(notes.create("hookA", "over the cap".to_owned(), secs(60), NOW).is_none());
    // ...but a different hook is unaffected.
    assert!(notes.create("hookB", "fine".to_owned(), secs(60), NOW).is_some());
    // Once the notes have expired there is room again, though they are still held.
    assert!(notes.create("hookA", "later".to_owned(), secs(60), NOW + secs(60)).is_some());
    assert_eq!(notes.len(), MAX_TEMP_NOTES_PER_HOOK + 2);
}

#[test]
fn ttl_clamping() {
    assert_eq!(TempNotes::clamp_ttl(1), MIN_TTL);
    assert_eq!(TempNotes::clamp_ttl(u64::MAX), MAX_TTL);
    assert_eq!(TempNotes::clamp_ttl(3600), Duration::from_secs(3600).as_nanos());
}

#[test]
fn bounds_are_a_minute_a_day_and_a_month() {
    assert_eq!(MIN_TTL, secs(60));
    assert_eq!(DEFAULT_TTL, secs(24 * 60 * 60));
    assert_eq!(MAX_TTL, secs(30 * 24 * 60 * 60));
    assert_eq!(TempNotes::clamp_ttl(60), MIN_TTL);
    assert_eq!(TempNotes::clamp_ttl(30 * 24 * 60 * 60), MAX_TTL);
}

#[test]
fn a_note_ends_with_its_last_nanosecond() {
    let mut notes = TempNotes::default();
    let id = notes.create("hookA", "x".to_owned(), 10, NOW).unwrap();
    assert_eq!(notes.get(&id, "hookA", NOW + 9), Some("x".to_owned()));
    // A stranger's read of an expired note evicts nothing.
    assert_eq!(notes.get(&id, "hookB", NOW + 10), None);
    assert_eq!(notes.len(), 1);
    assert_eq!(notes.get(&id, "hookA", NOW + 10), None);
    assert_eq!(notes.len(), 0);
}

#[test]
fn the_same_id_is_overwritten() {
    let mut notes = TempNotes::new();
    assert!(notes.create_with("t_1", "hookA", "old".to_owned(), 10, NOW));
    assert!(notes.create_with("t_2", "hookA", "other".to_owned(), 10, NOW));
    assert!(notes.create_with("t_1", "hookB", "new".to_owned(), 10, NOW));
    assert_eq!(notes.get("t_1", "hookA", NOW), None);
    assert_eq!(notes.get("t_1", "hookB", NOW), Some("new".to_owned()));
    assert_eq!(notes.get("t_2", "hookA", NOW), Some("other".to_owned()));
    assert_eq!(notes.len(), 2);
}

#[test]
fn a_sweep_changes_no_read() {
    let mut notes = TempNotes::new();
    for i in 0..10u128 {
        assert!(notes.create_with(&format!("t_{i}"), "hookA", format!("{i}"), 10 * i, NOW));
    }
    assert_eq!(notes.sweep(NOW + 35), 4);
    for i in 0..10u128 {
        let expected = if i >= 4 { Some(format!("{i}")) } else { None };
        assert_eq!(notes.get(&format!("t_{i}"), "hookA", NOW + 35), expected);
    }
}
