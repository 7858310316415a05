use breakrs::cli::{
    active_line, decimal_string, extract_flags_from_input, format_duration, format_flags,
    history_line, notify_line, removed_line, set_line, whole_seconds,
};
use breakrs::database::Timer;

fn timer(urgent: bool, sound: bool, recurring: bool) -> Timer {
    Timer {
        uuid: 1,
        id: 1,
        message: "m".to_string(),
        duration_seconds: 1,
        created_at: 0,
        due_at: 1_000_000_000,
        urgent,
        sound,
        recurring,
    }
}

fn words(list: &[&str]) -> Vec<String> {
    list.iter().map(|s| s.to_string()).collect()
}

#[test]
fn durations_are_shown_in_hours_minutes_seconds() {
    assert_eq!(format_duration(3665, 5), "1h 1m");
    assert_eq!(format_duration(360, 5), "6m");
    assert_eq!(format_duration(45, 5), "0s".replace("0s", "45s"));
    assert_eq!(format_duration(299, 5), "4m 59s");
    assert_eq!(format_duration(300, 5), "5m");
    assert_eq!(format_duration(60, 5), "1m 0s");
    assert_eq!(format_duration(0, 5), "0s");
    assert_eq!(format_duration(3600, 5), "1h 0m");
    assert_eq!(format_duration(7325, i64::MAX), "2h 2m");
    assert_eq!(format_duration(125, i64::MAX), "2m 5s");
    assert_eq!(format_duration(59, i64::MAX), "59s");
    assert_eq!(format_duration(86_400 * 365, 5), "8760h 0m");
    assert_eq!(format_duration(i64::MAX, 5), "2562047788015215h 30m");
}

#[test]
fn durations_without_a_threshold_show_no_seconds() {
    assert_eq!(format_duration(45, 0), "");
    assert_eq!(format_duration(125, 2), "2m");
    assert_eq!(format_duration(125, 3), "2m 5s");
    assert_eq!(format_duration(45, -1), "");
}

#[test]
fn negative_durations_show_their_seconds_only() {
    assert_eq!(format_duration(-5, 5), "-5s");
    assert_eq!(format_duration(-60, 5), "0s");
    assert_eq!(format_duration(-125, 5), "-5s");
    assert_eq!(format_duration(-125, -2), "");
    assert_eq!(format_duration(-125, -1), "-5s");
    assert_eq!(format_duration(-3600, 5), "");
    assert_eq!(format_duration(-3599, i64::MAX), "-59s");
    assert_eq!(format_duration(i64::MIN, 5), "");
}

fn reference_duration(seconds: i64, threshold: i64) -> String {
    let hours = seconds / 3600;
    let minutes = (seconds % 3600) / 60;
    let secs = seconds % 60;
    let mut parts = Vec::new();
    if hours > 0 {
        parts.push(format!("{}h", hours));
    }
    if minutes > 0 || hours > 0 {
        parts.push(format!("{}m", minutes));
    }
    if hours == 0 && minutes < threshold {
        parts.push(format!("{}s", secs));
    }
    parts.join(" ")
}

#[test]
fn durations_follow_the_rule_on_a_sweep() {
    let mut seconds: i64 = -20_000;
    while seconds <= 20_000 {
        for threshold in [-3, 0, 1, 5, 59, i64::MAX] {
            assert_eq!(
                format_duration(seconds, threshold),
                reference_duration(seconds, threshold),
                "{} {}",
                seconds,
                threshold
            );
        }
        seconds += 7;
    }
}

#[test]
fn flags_are_shown_in_brackets() {
    assert_eq!(format_flags(&timer(false, false, false)), "");
    assert_eq!(format_flags(&timer(true, false, false)), " [urgent]");
    assert_eq!(format_flags(&timer(false, true, false)), " [sound]");
    assert_eq!(format_flags(&timer(false, false, true)), " [recurring]");
    assert_eq!(format_flags(&timer(true, true, false)), " [urgent, sound]");
    assert_eq!(format_flags(&timer(true, false, true)), " [urgent, recurring]");
    assert_eq!(format_flags(&timer(false, true, true)), " [sound, recurring]");
    assert_eq!(
        format_flags(&timer(true, true, true)),
        " [urgent, sound, recurring]"
    );
}

#[test]
fn long_flags_are_picked_out_anywhere() {
    let (clean, u, s, r) = extract_flags_from_input(&words(&["5m", "coffee", "--urgent"]));
    assert_eq!(clean, "5m coffee");
    assert!(u && !s && !r);
    let (clean, u, s, r) =
        extract_flags_from_input(&words(&["--sound", "1h", "--recurring", "stretch"]));
    assert_eq!(clean, "1h stretch");
    assert!(!u && s && r);
}

#[test]
fn short_flags_are_picked_out_alone_or_combined() {
    let (clean, u, s, r) = extract_flags_from_input(&words(&["-u", "5m", "tea"]));
    assert_eq!(clean, "5m tea");
    assert!(u && !s && !r);
    let (clean, u, s, r) = extract_flags_from_input(&words(&["5m", "tea", "-usr"]));
    assert_eq!(clean, "5m tea");
    assert!(u && s && r);
    let (clean, u, s, r) = extract_flags_from_input(&words(&["-rs", "5m", "tea"]));
    assert_eq!(clean, "5m tea");
    assert!(!u && s && r);
}

#[test]
fn an_unknown_short_flag_keeps_the_word() {
    let (clean, u, s, r) = extract_flags_from_input(&words(&["-ux", "5m", "tea"]));
    assert_eq!(clean, "-ux 5m tea");
    assert!(u && !s && !r);
    let (clean, u, s, r) = extract_flags_from_input(&words(&["5m", "-5", "degrees", "-xs"]));
    assert_eq!(clean, "5m -5 degrees -xs");
    assert!(!u && !s && !r);
}

#[test]
fn other_words_are_kept_as_they_are() {
    let (clean, u, s, r) = extract_flags_from_input(&words(&[
        "--Urgent", "--", "--verbose", "-", "Get", "Coffee", "",
    ]));
    assert_eq!(clean, "--Urgent -- --verbose Get Coffee ");
    assert!(!u && !s && !r);
    let (clean, u, s, r) = extract_flags_from_input(&[]);
    assert_eq!(clean, "");
    assert!(!u && !s && !r);
}

const SECOND: i128 = 1_000_000_000;

fn tea(due_at: i128) -> Timer {
    Timer {
        uuid: 1,
        id: 12,
        message: "Tea \"now\"".to_string(),
        duration_seconds: 300,
        created_at: due_at - 300 * SECOND,
        due_at,
        urgent: true,
        sound: false,
        recurring: true,
    }
}

#[test]
fn whole_seconds_round_toward_zero() {
    assert_eq!(whole_seconds(0, 0), 0);
    assert_eq!(whole_seconds(0, SECOND - 1), 0);
    assert_eq!(whole_seconds(0, SECOND), 1);
    assert_eq!(whole_seconds(0, 10 * SECOND + SECOND / 2), 10);
    assert_eq!(whole_seconds(SECOND - 1, 0), 0);
    assert_eq!(whole_seconds(SECOND, 0), -1);
    assert_eq!(whole_seconds(5 * SECOND + 7, 0), -5);
    assert_eq!(whole_seconds(-3 * SECOND, 4 * SECOND), 7);
    assert_eq!(whole_seconds(i128::MIN, i128::MAX), i64::MAX);
    assert_eq!(whole_seconds(i128::MAX, i128::MIN), i64::MIN);
    assert_eq!(whole_seconds(0, i128::MAX), i64::MAX);
    assert_eq!(whole_seconds(0, i128::MIN), i64::MIN);
    assert_eq!(whole_seconds(0, i64::MAX as i128 * SECOND), i64::MAX);
    assert_eq!(whole_seconds(0, -(i64::MAX as i128) * SECOND), -i64::MAX);
}

#[test]
fn numbers_are_written_in_base_ten() {
    assert_eq!(decimal_string(0), "0");
    assert_eq!(decimal_string(42), "42");
    assert_eq!(decimal_string(u64::MAX), "18446744073709551615");
}

#[test]
fn a_new_timer_is_confirmed() {
    let timer = tea(1000 * SECOND);
    assert_eq!(
        set_line(&timer),
        "Timer #12 set for \"Tea \"now\"\" (300 seconds) [urgent, recurring]"
    );
    assert_eq!(
        notify_line(&timer, 700 * SECOND),
        "Break will notify you in 5m"
    );
    assert_eq!(
        notify_line(&timer, 701 * SECOND),
        "Break will notify you in 4m 59s"
    );
    assert_eq!(
        notify_line(&timer, 999 * SECOND),
        "Break will notify you in 1s"
    );
    assert_eq!(
        notify_line(&timer, 999 * SECOND + 1),
        "Break notification is ready!"
    );
    assert_eq!(
        notify_line(&timer, 2000 * SECOND),
        "Break notification is ready!"
    );
}

#[test]
fn an_active_timer_shows_what_remains() {
    let timer = tea(10_000 * SECOND);
    assert_eq!(
        active_line(&timer, 10_000 * SECOND - 3725 * SECOND),
        "  #12: \"Tea \"now\"\" - 1h 2m remaining [urgent, recurring]"
    );
    assert_eq!(
        active_line(&timer, 10_000 * SECOND - 125 * SECOND),
        "  #12: \"Tea \"now\"\" - 2m 5s remaining [urgent, recurring]"
    );
    assert_eq!(
        active_line(&timer, 10_000 * SECOND - SECOND + 1),
        "  #12: \"Tea \"now\"\" - EXPIRED [urgent, recurring]"
    );
    assert_eq!(
        active_line(&timer, 20_000 * SECOND),
        "  #12: \"Tea \"now\"\" - EXPIRED [urgent, recurring]"
    );
}

#[test]
fn a_completed_timer_shows_how_long_ago() {
    let mut timer = tea(10_000 * SECOND);
    timer.urgent = false;
    timer.recurring = false;
    assert_eq!(
        history_line(&timer, 10_000 * SECOND + 59 * SECOND),
        "  #12: \"Tea \"now\"\" - completed < 1m ago"
    );
    assert_eq!(
        history_line(&timer, 10_000 * SECOND + 60 * SECOND),
        "  #12: \"Tea \"now\"\" - completed 1m 0s ago"
    );
    assert_eq!(
        history_line(&timer, 10_000 * SECOND + 7325 * SECOND),
        "  #12: \"Tea \"now\"\" - completed 2h 2m ago"
    );
    assert_eq!(
        history_line(&timer, 10_000 * SECOND - 90 * SECOND),
        "  #12: \"Tea \"now\"\" - completed 1m 30s ago"
    );
    assert_eq!(
        history_line(&timer, 10_000 * SECOND - 5 * SECOND),
        "  #12: \"Tea \"now\"\" - completed < 1m ago"
    );
}

#[test]
fn a_removal_is_reported() {
    assert_eq!(
        removed_line(12, &Some(tea(0))),
        "Removed timer #12: \"Tea \"now\"\""
    );
    assert_eq!(removed_line(7, &None), "Timer #7 not found");
}
