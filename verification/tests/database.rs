use breakrs::database::{Database, Timer};
use time::OffsetDateTime;

fn now_nanos() -> i128 {
    OffsetDateTime::now_utc().unix_timestamp_nanos()
}

/// Waits until the clock has moved on by at least ten milliseconds.
fn let_time_pass() {
    let start = now_nanos();
    while now_nanos() - start < 10_000_000 {
        std::hint::spin_loop();
    }
}

#[test]
fn test_new_database() {
    let db = Database::new();
    assert_eq!(db.timers.len(), 0);
    assert_eq!(db.history.len(), 0);
    assert_eq!(db.next_id, 1);
}

#[test]
fn test_add_timer() {
    let mut db = Database::new();
    let timer = db
        .add_timer("Test".to_string(), 300, false, false, false)
        .unwrap();

    assert_eq!(timer.id, 1);
    assert_eq!(timer.message, "Test");
    assert_eq!(timer.duration_seconds, 300);
    assert_eq!(db.timers.len(), 1);
    assert_eq!(db.next_id, 2);
}

#[test]
fn test_add_timer_max_duration() {
    let mut db = Database::new();
    let max_duration = 365 * 24 * 60 * 60; // 1 year

    // Should succeed at max duration
    let result = db.add_timer("Max".to_string(), max_duration, false, false, false);
    assert!(result.is_ok());

    // Should fail above max duration
    let result = db.add_timer(
        "Too long".to_string(),
        max_duration + 1,
        false,
        false,
        false,
    );
    assert!(result.is_err());
    assert!(result.unwrap_err().contains("Duration too large"));
}

#[test]
fn test_remove_timer() {
    let mut db = Database::new();
    let timer = db
        .add_timer("Test".to_string(), 300, false, false, false)
        .unwrap();

    let removed = db.remove_timer(timer.id);
    assert!(removed.is_some());
    assert_eq!(removed.unwrap().id, timer.id);
    assert_eq!(db.timers.len(), 0);

    // Removing non-existent timer should return None
    let removed = db.remove_timer(999);
    assert!(removed.is_none());
}

#[test]
fn test_complete_timer() {
    let mut db = Database::new();
    let timer = db
        .add_timer("Test".to_string(), 300, false, false, false)
        .unwrap();

    let completed = db.complete_timer(timer.id);
    assert!(completed.is_some());
    assert_eq!(db.timers.len(), 0);
    assert_eq!(db.history.len(), 1);
    assert_eq!(db.history[0].id, timer.id);
}

#[test]
fn test_reset_timer() {
    let mut db = Database::new();
    let timer = db
        .add_timer("Test".to_string(), 300, false, false, false)
        .unwrap();
    let original_due = timer.due_at;

    // Wait a tiny bit and reset
    let_time_pass();

    let reset = db.reset_timer(timer.id);
    assert!(reset.is_some());

    // Due time should be updated (different from original)
    let reset_timer = reset.unwrap();
    assert!(reset_timer.created_at > timer.created_at);
    assert!(reset_timer.due_at > original_due);
}

#[test]
fn test_history_max_entries() {
    let mut db = Database::new();

    // Add 25 timers and complete them all
    for i in 1..=25 {
        let timer = db
            .add_timer(format!("Timer {}", i), 10, false, false, false)
            .unwrap();
        db.complete_timer(timer.id);
    }

    // Should only keep last 20
    assert_eq!(db.history.len(), 20);

    // Most recent should be first (Timer 25)
    assert_eq!(db.history[0].message, "Timer 25");
    // Oldest in history should be Timer 6 (25 - 20 + 1)
    assert_eq!(db.history[19].message, "Timer 6");
}

#[test]
fn test_clear_all() {
    let mut db = Database::new();
    db.add_timer("Test 1".to_string(), 300, false, false, false)
        .unwrap();
    db.add_timer("Test 2".to_string(), 600, false, false, false)
        .unwrap();

    assert_eq!(db.timers.len(), 2);
    db.clear_all();
    assert_eq!(db.timers.len(), 0);

    // History should not be affected
    db.add_to_history(Timer {
        uuid: uuid::Uuid::new_v4().as_u128(),
        id: 1,
        message: "History".to_string(),
        duration_seconds: 100,
        created_at: now_nanos(),
        due_at: now_nanos(),
        urgent: false,
        sound: false,
        recurring: false,
    });
    assert_eq!(db.history.len(), 1);
    db.clear_all();
    assert_eq!(db.history.len(), 1); // Still there
}

#[test]
fn test_clear_history() {
    let mut db = Database::new();
    let timer = db
        .add_timer("Test".to_string(), 300, false, false, false)
        .unwrap();
    db.complete_timer(timer.id);

    assert_eq!(db.history.len(), 1);
    db.clear_history();
    assert_eq!(db.history.len(), 0);
}

#[test]
fn test_get_expired_timers() {
    let mut db = Database::new();

    // Add a timer that's already expired (0 seconds)
    let expired_timer = db
        .add_timer("Expired".to_string(), 0, false, false, false)
        .unwrap();

    // Add a future timer
    db.add_timer("Future".to_string(), 3600, false, false, false)
        .unwrap();

    // Small delay to ensure the 0-second timer is definitely expired
    let_time_pass();

    let expired = db.get_expired_timers();
    assert_eq!(expired.len(), 1);
    assert_eq!(expired[0].id, expired_timer.id);
}

#[test]
fn test_timer_flags() {
    let mut db = Database::new();

    // Test all flags
    let timer = db
        .add_timer("Urgent sound recurring".to_string(), 300, true, true, true)
        .unwrap();
    assert!(timer.urgent);
    assert!(timer.sound);
    assert!(timer.recurring);

    // Test default flags
    let timer = db
        .add_timer("Default".to_string(), 300, false, false, false)
        .unwrap();
    assert!(!timer.urgent);
    assert!(!timer.sound);
    assert!(!timer.recurring);
}

#[test]
fn test_sequential_ids() {
    let mut db = Database::new();

    let timer1 = db
        .add_timer("First".to_string(), 300, false, false, false)
        .unwrap();
    let timer2 = db
        .add_timer("Second".to_string(), 300, false, false, false)
        .unwrap();
    let timer3 = db
        .add_timer("Third".to_string(), 300, false, false, false)
        .unwrap();

    assert_eq!(timer1.id, 1);
    assert_eq!(timer2.id, 2);
    assert_eq!(timer3.id, 3);

    // Even after removing, next ID should continue
    db.remove_timer(timer2.id);
    let timer4 = db
        .add_timer("Fourth".to_string(), 300, false, false, false)
        .unwrap();
    assert_eq!(timer4.id, 4);
}

const SECOND: i128 = 1_000_000_000;

fn timer_at(db: &mut Database, message: &str, duration: u64, now: i128) -> Timer {
    db.add_timer_at(message.to_string(), duration, false, false, false, now, 7)
        .unwrap()
}

#[test]
fn add_timer_at_stamps_the_timer() {
    let mut db = Database::new();
    let now = 1_700_000_000 * SECOND + 123;
    let timer = db
        .add_timer_at("Tea".to_string(), 90, true, false, true, now, 0xabcdef)
        .unwrap();
    assert_eq!(timer.uuid, 0xabcdef);
    assert_eq!(timer.id, 1);
    assert_eq!(timer.message, "Tea");
    assert_eq!(timer.duration_seconds, 90);
    assert_eq!(timer.created_at, now);
    assert_eq!(timer.due_at, now + 90 * SECOND);
    assert!(timer.urgent && !timer.sound && timer.recurring);
    assert_eq!(db.timers.len(), 1);
    assert_eq!(db.timers[0].id, 1);
    assert_eq!(db.timers[0].due_at, now + 90 * SECOND);
    assert_eq!(db.next_id, 2);
}

#[test]
fn add_timer_accepts_every_duration_up_to_a_year() {
    for d in [0u64, 1, 59, 3600, 31_535_999, 31_536_000] {
        let mut db = Database::new();
        let timer = db
            .add_timer_at("x".to_string(), d, false, false, false, 5 * SECOND, 1)
            .unwrap();
        assert_eq!(timer.due_at - timer.created_at, d as i128 * SECOND);
    }
}

#[test]
fn add_timer_refuses_more_than_a_year() {
    for d in [31_536_001u64, 100_000_000, u64::MAX] {
        let mut db = Database::new();
        let err = db
            .add_timer_at("x".to_string(), d, false, false, false, 5 * SECOND, 1)
            .unwrap_err();
        assert_eq!(err, "Duration too large (max 365 days)");
        assert_eq!(db.timers.len(), 0);
        assert_eq!(db.next_id, 1);
    }
}

#[test]
fn add_timer_reads_the_clock() {
    let mut db = Database::new();
    let before = now_nanos();
    let timer = db
        .add_timer("Now".to_string(), 60, false, false, false)
        .unwrap();
    let after = now_nanos();
    assert!(before <= timer.created_at && timer.created_at <= after);
    assert_eq!(timer.due_at - timer.created_at, 60 * SECOND);
}

#[test]
fn add_timer_draws_a_random_uuid_of_version_four() {
    let mut db = Database::new();
    let a = db.add_timer("a".to_string(), 60, false, false, false).unwrap();
    let b = db.add_timer("b".to_string(), 60, false, false, false).unwrap();
    assert_ne!(a.uuid, b.uuid);
    assert_eq!(
        uuid::Uuid::from_u128(a.uuid).get_version_num(),
        4
    );
    assert_eq!(
        uuid::Uuid::from_u128(b.uuid).get_version_num(),
        4
    );
}

#[test]
fn ids_are_never_reused() {
    let mut db = Database::new();
    let mut issued = Vec::new();
    for i in 0..10 {
        issued.push(timer_at(&mut db, "t", 60, i as i128 * SECOND).id);
    }
    db.remove_timer(10);
    db.remove_timer(3);
    db.complete_timer(9);
    db.remove_timer(1);
    db.clear_all();
    db.clear_history();
    let fresh = timer_at(&mut db, "fresh", 60, 11 * SECOND);
    assert_eq!(fresh.id, 11);
    for id in issued {
        assert!(fresh.id > id);
    }
}

#[test]
fn complete_is_remove_then_add_to_history() {
    let mut one = Database::new();
    let mut two = Database::new();
    for db in [&mut one, &mut two] {
        timer_at(db, "a", 10, 0);
        timer_at(db, "b", 20, SECOND);
        timer_at(db, "c", 30, 2 * SECOND);
    }
    let completed = one.complete_timer(2).unwrap();
    let removed = two.remove_timer(2).unwrap();
    two.add_to_history(removed.clone());

    assert_eq!(completed.message, "b");
    assert_eq!(removed.message, "b");
    assert_eq!(one.timers.len(), 2);
    assert_eq!(two.timers.len(), 2);
    assert_eq!(one.history.len(), 1);
    assert_eq!(two.history.len(), 1);
    assert_eq!(one.history[0].id, two.history[0].id);
    assert_eq!(one.timers[0].id, 1);
    assert_eq!(one.timers[1].id, 3);
    assert_eq!(one.next_id, two.next_id);
}

#[test]
fn complete_of_an_absent_id_changes_nothing() {
    let mut db = Database::new();
    timer_at(&mut db, "a", 10, 0);
    assert!(db.complete_timer(42).is_none());
    assert_eq!(db.timers.len(), 1);
    assert_eq!(db.history.len(), 0);
}

#[test]
fn history_keeps_the_twenty_most_recent_in_order() {
    let mut db = Database::new();
    for i in 1..=25u32 {
        let timer = timer_at(&mut db, "t", 10, i as i128 * SECOND);
        db.complete_timer(timer.id);
        assert!(db.history.len() <= 20);
        assert_eq!(db.history[0].id, i);
    }
    assert_eq!(db.history.len(), 20);
    for (k, entry) in db.history.iter().enumerate() {
        assert_eq!(entry.id, 25 - k as u32);
    }
}

#[test]
fn add_to_history_takes_any_timer() {
    let mut db = Database::new();
    let stray = Timer {
        uuid: 9,
        id: 77,
        message: "stray".to_string(),
        duration_seconds: 5,
        created_at: 0,
        due_at: 5 * SECOND,
        urgent: false,
        sound: true,
        recurring: true,
    };
    db.add_to_history(stray.clone());
    db.add_to_history(stray);
    assert_eq!(db.history.len(), 2);
    assert_eq!(db.history[0].id, 77);
    assert_eq!(db.timers.len(), 0);
    assert_eq!(db.next_id, 1);
}

#[test]
fn reset_moves_both_timestamps_forward_and_keeps_identity() {
    let mut db = Database::new();
    timer_at(&mut db, "a", 10, 0);
    let before = db
        .add_timer_at("b".to_string(), 300, true, true, true, 100 * SECOND, 0x55)
        .unwrap();
    let after = db.reset_timer_at(before.id, 100 * SECOND + 1).unwrap();
    assert!(after.created_at > before.created_at);
    assert!(after.due_at > before.due_at);
    assert_eq!(after.created_at, 100 * SECOND + 1);
    assert_eq!(after.due_at, 400 * SECOND + 1);
    assert_eq!(after.id, before.id);
    assert_eq!(after.uuid, before.uuid);
    assert_eq!(after.message, "b");
    assert_eq!(after.duration_seconds, 300);
    assert!(after.urgent && after.sound && after.recurring);
    assert_eq!(db.timers.len(), 2);
    assert_eq!(db.timers[1].due_at, 400 * SECOND + 1);
    assert_eq!(db.timers[0].due_at, 10 * SECOND);
    assert_eq!(db.history.len(), 0);
}

#[test]
fn reset_of_an_absent_id_changes_nothing() {
    let mut db = Database::new();
    timer_at(&mut db, "a", 10, 0);
    assert!(db.reset_timer_at(5, 50 * SECOND).is_none());
    assert!(db.reset_timer(5).is_none());
    assert_eq!(db.timers.len(), 1);
    assert_eq!(db.timers[0].created_at, 0);
    assert_eq!(db.timers[0].due_at, 10 * SECOND);
    assert_eq!(db.next_id, 2);
}

#[test]
fn expired_are_exactly_the_timers_due() {
    let mut db = Database::new();
    let now = 1000 * SECOND;
    timer_at(&mut db, "overdue", 10, now - 20 * SECOND);
    timer_at(&mut db, "due now", 10, now - 10 * SECOND);
    timer_at(&mut db, "one nanosecond left", 10, now - 10 * SECOND + 1);
    timer_at(&mut db, "one second left", 11, now - 10 * SECOND);
    timer_at(&mut db, "due before too", 0, now - 1);
    let expired = db.expired_timers_at(now);
    let ids: Vec<u32> = expired.iter().map(|t| t.id).collect();
    assert_eq!(ids, vec![1, 2, 5]);
    assert_eq!(expired[1].message, "due now");
    assert_eq!(db.timers.len(), 5);
    assert!(db.timers[1].is_expired(now));
    assert!(!db.timers[2].is_expired(now));
}

#[test]
fn remove_takes_the_first_timer_with_the_id() {
    let mut db = Database::new();
    timer_at(&mut db, "a", 10, 0);
    timer_at(&mut db, "b", 10, 0);
    db.timers[1].id = 1;
    let removed = db.remove_timer(1).unwrap();
    assert_eq!(removed.message, "a");
    assert_eq!(db.timers.len(), 1);
    assert_eq!(db.timers[0].message, "b");
    assert_eq!(db.history.len(), 0);
}

#[test]
fn clear_history_leaves_the_active_list() {
    let mut db = Database::new();
    timer_at(&mut db, "a", 10, 0);
    timer_at(&mut db, "b", 10, 0);
    db.complete_timer(1);
    db.clear_history();
    assert_eq!(db.history.len(), 0);
    assert_eq!(db.timers.len(), 1);
    assert_eq!(db.next_id, 3);
}

#[test]
fn restart_keeps_the_duration() {
    let mut db = Database::new();
    let timer = timer_at(&mut db, "a", 45, 3 * SECOND);
    let again = timer.restart(9 * SECOND);
    assert_eq!(again.created_at, 9 * SECOND);
    assert_eq!(again.due_at, 54 * SECOND);
    assert_eq!(again.id, timer.id);
    let copy = again.clone();
    assert_eq!(copy.due_at, again.due_at);
    assert_eq!(copy.message, "a");
}
