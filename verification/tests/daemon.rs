use breakrs::daemon::{
    earliest_due, notice_body, notice_for, run_daemon, settle, sleep_seconds, Action, Daemon,
    Event, Phase, IDLE_SLEEP_SECONDS, MAX_SLEEP_SECONDS, RETRY_DELAY_MILLIS,
};
use breakrs::database::{Database, Timer};

const SECOND: i128 = 1_000_000_000;
const NOW: i128 = 1_700_000_000 * SECOND;

fn timer(id: u32, message: &str, due_at: i128, recurring: bool) -> Timer {
    Timer {
        uuid: id as u128,
        id,
        message: message.to_string(),
        duration_seconds: 60,
        created_at: due_at - 60 * SECOND,
        due_at,
        urgent: id % 2 == 0,
        sound: id % 3 == 0,
        recurring,
    }
}

fn store(timers: Vec<Timer>) -> Database {
    let next_id = timers.iter().map(|t| t.id).max().unwrap_or(0) + 1;
    Database {
        timers,
        history: Vec::new(),
        next_id,
    }
}

#[test]
fn sleep_until_just_past_the_soonest_timer() {
    let timers = vec![
        timer(1, "two hours", NOW + 7200 * SECOND, false),
        timer(2, "ten seconds", NOW + 10 * SECOND, false),
        timer(3, "forty-five minutes", NOW + 2700 * SECOND, false),
    ];
    assert_eq!(sleep_seconds(&timers, NOW), 11);
    assert_eq!(earliest_due(&timers), Some(NOW + 10 * SECOND));
}

#[test]
fn sleep_thirty_seconds_with_nothing_to_go_by() {
    assert_eq!(sleep_seconds(&Vec::new(), NOW), 30);
    assert_eq!(IDLE_SLEEP_SECONDS, 30);
    assert_eq!(earliest_due(&Vec::new()), None);
}

#[test]
fn sleep_one_second_when_a_timer_is_overdue() {
    let timers = vec![
        timer(1, "overdue", NOW - 5 * SECOND, false),
        timer(2, "later", NOW + 100 * SECOND, false),
    ];
    assert_eq!(sleep_seconds(&timers, NOW), 1);
    let due_now = vec![timer(1, "now", NOW, false)];
    assert_eq!(sleep_seconds(&due_now, NOW), 1);
}

#[test]
fn sleep_is_capped_at_one_hour() {
    let timers = vec![timer(1, "three hours", NOW + 10_800 * SECOND, false)];
    assert_eq!(sleep_seconds(&timers, NOW), 3600);
    assert_eq!(MAX_SLEEP_SECONDS, 3600);
    let far = vec![timer(1, "far", i128::MAX, false)];
    assert_eq!(sleep_seconds(&far, -NOW), 3600);
}

#[test]
fn sleep_counts_whole_seconds_and_adds_one() {
    let at = |nanos: i128| vec![timer(1, "t", NOW + nanos, false)];
    assert_eq!(sleep_seconds(&at(1), NOW), 1);
    assert_eq!(sleep_seconds(&at(SECOND - 1), NOW), 1);
    assert_eq!(sleep_seconds(&at(SECOND), NOW), 2);
    assert_eq!(sleep_seconds(&at(10 * SECOND + SECOND / 2), NOW), 11);
    assert_eq!(sleep_seconds(&at(3598 * SECOND), NOW), 3599);
    assert_eq!(sleep_seconds(&at(3599 * SECOND), NOW), 3600);
    assert_eq!(sleep_seconds(&at(3600 * SECOND), NOW), 3600);
}

#[test]
fn notice_carries_message_urgency_and_sound() {
    let notice = notice_for(&timer(6, "Tea is ready", NOW, false));
    assert_eq!(notice.title, "Tea is ready");
    assert!(notice.critical);
    assert!(notice.sound);
    let quiet = notice_for(&timer(1, "Quiet", NOW, false));
    assert!(!quiet.critical);
    assert!(!quiet.sound);
    assert_eq!(notice_body(), "Break timer completed");
}

#[test]
fn settle_completes_a_one_shot_timer() {
    let due = timer(1, "once", NOW, false);
    let mut db = store(vec![due.clone(), timer(2, "other", NOW + SECOND, false)]);
    settle(&mut db, &due, NOW + 5);
    assert_eq!(db.timers.len(), 1);
    assert_eq!(db.timers[0].id, 2);
    assert_eq!(db.history.len(), 1);
    assert_eq!(db.history[0].id, 1);
}

#[test]
fn settle_restarts_a_recurring_timer() {
    let due = timer(1, "again", NOW, true);
    let mut db = store(vec![due.clone()]);
    settle(&mut db, &due, NOW + 5);
    assert_eq!(db.timers.len(), 1);
    assert_eq!(db.timers[0].id, 1);
    assert_eq!(db.timers[0].created_at, NOW + 5);
    assert_eq!(db.timers[0].due_at, NOW + 5 + 60 * SECOND);
    assert_eq!(db.history.len(), 1);
    assert_eq!(db.history[0].due_at, NOW);
}

/// The daemon once its marker is written: about to load the store.
fn started() -> (Daemon, Action) {
    let (daemon, _) = run_daemon();
    daemon.step_at(Event::MarkerWritten, NOW)
}

#[test]
fn daemon_starts_by_writing_its_marker() {
    let (daemon, action) = run_daemon();
    assert_eq!(daemon.phase, Phase::Starting);
    assert!(daemon.is_well_formed());
    assert!(!daemon.is_terminated());
    assert!(matches!(action, Action::WriteMarker));
    let (daemon, action) = daemon.step_at(Event::MarkerWritten, NOW);
    assert_eq!(daemon.phase, Phase::Loading);
    assert!(matches!(action, Action::Load));
}

#[test]
fn daemon_gives_up_if_it_cannot_start() {
    let (daemon, _) = run_daemon();
    let (daemon, action) = daemon.step_at(Event::StartupFailed, NOW);
    assert_eq!(daemon.phase, Phase::Failed);
    assert!(matches!(action, Action::Abort));
    assert!(!daemon.is_terminated());
    let (daemon, action) = daemon.step_at(Event::MarkerWritten, NOW);
    assert_eq!(daemon.phase, Phase::Failed);
    assert!(matches!(action, Action::Abort));
}

#[test]
fn daemon_ends_when_nothing_is_active() {
    let (daemon, _) = started();
    let (daemon, action) = daemon.step_at(Event::Loaded(Database::new()), NOW);
    assert!(matches!(action, Action::Exit));
    assert!(daemon.is_terminated());
    let (daemon, action) = daemon.step_at(Event::Woke, NOW);
    assert!(matches!(action, Action::Exit));
    assert_eq!(daemon.phase, Phase::Terminated);
}

#[test]
fn daemon_sleeps_without_saving_when_nothing_is_due() {
    let (daemon, _) = started();
    let db = store(vec![timer(1, "later", NOW + 10 * SECOND, false)]);
    let (daemon, action) = daemon.step_at(Event::Loaded(db), NOW);
    assert!(matches!(action, Action::Sleep(11)));
    assert_eq!(daemon.phase, Phase::Sleeping);
    let (daemon, action) = daemon.step_at(Event::Woke, NOW + 11 * SECOND);
    assert!(matches!(action, Action::Load));
    assert_eq!(daemon.phase, Phase::Loading);
}

#[test]
fn daemon_notifies_settles_saves_and_ends() {
    let (daemon, _) = started();
    let db = store(vec![timer(1, "once", NOW - SECOND, false)]);
    let (daemon, action) = daemon.step_at(Event::Loaded(db), NOW);
    match action {
        Action::Notify(notice) => assert_eq!(notice.title, "once"),
        other => panic!("unexpected action {:?}", other),
    }
    assert_eq!(daemon.phase, Phase::Notifying);
    let (daemon, action) = daemon.step_at(Event::Notified(true), NOW + 1);
    assert!(matches!(action, Action::Save));
    assert_eq!(daemon.phase, Phase::Saving);
    assert_eq!(daemon.db.timers.len(), 0);
    assert_eq!(daemon.db.history.len(), 1);
    let (daemon, action) = daemon.step_at(Event::Saved(true), NOW + 2);
    assert!(matches!(action, Action::Exit));
    assert!(daemon.is_terminated());
}

#[test]
fn daemon_retries_a_failed_notification_exactly_once() {
    let (daemon, _) = started();
    let db = store(vec![
        timer(1, "first", NOW - SECOND, false),
        timer(2, "second", NOW - SECOND, true),
        timer(3, "later", NOW + 100 * SECOND, false),
    ]);
    let (daemon, action) = daemon.step_at(Event::Loaded(db), NOW);
    assert!(matches!(action, Action::Notify(_)));
    assert_eq!(daemon.expired.len(), 2);

    let (daemon, action) = daemon.step_at(Event::Notified(false), NOW);
    assert!(matches!(action, Action::Wait(500)));
    assert_eq!(RETRY_DELAY_MILLIS, 500);
    assert_eq!(daemon.phase, Phase::Retrying);
    assert_eq!(daemon.db.timers.len(), 3);

    let (daemon, action) = daemon.step_at(Event::Waited, NOW);
    match action {
        Action::Notify(notice) => assert_eq!(notice.title, "first"),
        other => panic!("unexpected action {:?}", other),
    }
    assert!(daemon.retried);

    // The second failure is final: the timer is settled and the next is notified.
    let (daemon, action) = daemon.step_at(Event::Notified(false), NOW + SECOND);
    match action {
        Action::Notify(notice) => assert_eq!(notice.title, "second"),
        other => panic!("unexpected action {:?}", other),
    }
    assert!(!daemon.retried);
    assert_eq!(daemon.cursor, 1);
    assert_eq!(daemon.db.timers.len(), 2);
    assert_eq!(daemon.db.history[0].id, 1);

    let (daemon, action) = daemon.step_at(Event::Notified(true), NOW + 2 * SECOND);
    assert!(matches!(action, Action::Save));
    assert_eq!(daemon.db.timers.len(), 2);
    assert_eq!(daemon.db.timers[0].id, 2);
    assert_eq!(daemon.db.timers[0].due_at, NOW + 62 * SECOND);
    assert_eq!(daemon.db.history.len(), 2);
    assert_eq!(daemon.db.history[0].id, 2);

    // A save that failed does not stop the daemon.
    let (daemon, action) = daemon.step_at(Event::Saved(false), NOW + 2 * SECOND);
    assert!(matches!(action, Action::Sleep(61)));
    assert_eq!(daemon.phase, Phase::Sleeping);
    assert_eq!(daemon.nap, 61);
}

#[test]
fn daemon_passes_over_a_store_it_cannot_load() {
    let (daemon, _) = started();
    let (daemon, action) = daemon.step_at(Event::LoadFailed, NOW);
    assert!(matches!(action, Action::Sleep(30)));
    assert_eq!(daemon.phase, Phase::Sleeping);
    let (daemon, action) = daemon.step_at(Event::Woke, NOW);
    assert!(matches!(action, Action::Load));
    assert_eq!(daemon.phase, Phase::Loading);
}

#[test]
fn daemon_asks_again_on_an_event_it_does_not_expect() {
    let (daemon, _) = started();
    let (daemon, action) = daemon.step_at(Event::Notified(true), NOW);
    assert!(matches!(action, Action::Load));
    assert_eq!(daemon.phase, Phase::Loading);
    let db = store(vec![timer(1, "once", NOW - SECOND, false)]);
    let (daemon, _) = daemon.step_at(Event::Loaded(db), NOW);
    let (daemon, action) = daemon.step_at(Event::Woke, NOW);
    match action {
        Action::Notify(notice) => assert_eq!(notice.title, "once"),
        other => panic!("unexpected action {:?}", other),
    }
    assert_eq!(daemon.phase, Phase::Notifying);
    assert_eq!(daemon.db.timers.len(), 1);
}

#[test]
fn daemon_step_reads_the_clock() {
    let (daemon, _) = started();
    let db = store(vec![
        timer(1, "long overdue", 0, true),
    ]);
    let (daemon, action) = daemon.step(Event::Loaded(db));
    assert!(matches!(action, Action::Notify(_)));
    let (daemon, action) = daemon.step(Event::Notified(true));
    assert!(matches!(action, Action::Save));
    assert!(daemon.db.timers[0].created_at > NOW);
    let (_, action) = daemon.step(Event::Saved(true));
    assert!(matches!(action, Action::Sleep(60) | Action::Sleep(61)));
}
