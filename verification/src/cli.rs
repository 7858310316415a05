//! What the command line shows and takes: durations and flags as text, and
//! flags picked out of the words of an input.

use vstd::prelude::*;
use vstd::string::*;
use crate::database::Timer;
use crate::platform::NANOS_PER_SECOND;
use crate::text::{
    chars_of, digits_of, join_with_blank, joined, push_decimal, range_is, string_of, views,
};

verus! {

/// `a / b` rounded toward zero, for a positive `b`.
pub open spec fn toward_zero(a: int, b: int) -> int {
    if a >= 0 {
        a / b
    } else {
        -((-a) / b)
    }
}

/// What is left of `a` after `toward_zero(a, b)` times `b`.
pub open spec fn left_over(a: int, b: int) -> int {
    a - toward_zero(a, b) * b
}

/// The number in base ten, with a minus sign if it is negative.
pub open spec fn signed_digits(n: int) -> Seq<char> {
    if n < 0 {
        seq!['-'] + digits_of((-n) as nat)
    } else {
        digits_of(n as nat)
    }
}

/// The parts of a duration as shown: hours if there are any, as `3h`;
/// minutes if there are any or there are hours, as `5m`; and seconds, as
/// `7s`, if there are no hours and the minutes are below `threshold`.
pub open spec fn duration_parts(seconds: int, threshold: int) -> Seq<Seq<char>> {
    let hours = toward_zero(seconds, 3600);
    let minutes = toward_zero(left_over(seconds, 3600), 60);
    let secs = left_over(seconds, 60);
    let with_hours = if hours > 0 {
        seq![signed_digits(hours).push('h')]
    } else {
        Seq::empty()
    };
    let with_minutes = if minutes > 0 || hours > 0 {
        with_hours.push(signed_digits(minutes).push('m'))
    } else {
        with_hours
    };
    if hours == 0 && minutes < threshold {
        with_minutes.push(signed_digits(secs).push('s'))
    } else {
        with_minutes
    }
}

/// A duration as shown: its parts with a blank between each two.
pub open spec fn duration_text(seconds: int, threshold: int) -> Seq<char> {
    joined(duration_parts(seconds, threshold), ' ')
}

/// The number in base ten, with a minus sign if `negative` and not zero, and
/// then `unit`.
fn part_text(negative: bool, size: u64, unit: char) -> (r: Vec<char>)
    ensures
        r@ == signed_digits(
            if negative {
                -(size as int)
            } else {
                size as int
            },
        ).push(unit),
{
    let mut out: Vec<char> = Vec::new();
    if negative && size > 0 {
        out.push('-');
    }
    let ghost lead = out@;
    push_decimal(&mut out, size);
    out.push(unit);
    proof {
        assert(lead + digits_of(size as nat) == signed_digits(
            if negative {
                -(size as int)
            } else {
                size as int
            },
        ));
    }
    out
}

/// A number of seconds as a duration for the eye: `1h 1m`, `6m`, `0m 45s`,
/// `45s`. See [`duration_parts`].
pub fn format_duration(seconds: i64, show_seconds_threshold_mins: i64) -> (r: String)
    ensures
        r@ == duration_text(seconds as int, show_seconds_threshold_mins as int),
{
    let negative = seconds < 0;
    let size: u64 = if negative {
        (-(seconds + 1)) as u64 + 1
    } else {
        seconds as u64
    };
    let hours = size / 3600;
    let minutes = (size % 3600) / 60;
    let secs = size % 60;
    proof {
        if negative {
            assert(size == -(seconds as int));
            assert(toward_zero(seconds as int, 3600) == -(hours as int));
            assert(left_over(seconds as int, 3600) == -((size % 3600) as int));
            assert(toward_zero(left_over(seconds as int, 3600), 60) == -(minutes as int));
            assert(left_over(seconds as int, 60) == -(secs as int));
        } else {
            assert(toward_zero(seconds as int, 3600) == hours);
            assert(left_over(seconds as int, 3600) == size % 3600);
            assert(toward_zero(left_over(seconds as int, 3600), 60) == minutes);
            assert(left_over(seconds as int, 60) == secs);
        }
    }
    let mut parts: Vec<Vec<char>> = Vec::new();
    assert(views(parts@) == Seq::<Seq<char>>::empty());
    if !negative && hours > 0 {
        parts.push(part_text(false, hours, 'h'));
        assert(views(parts@) == seq![signed_digits(hours as int).push('h')]);
    }
    if !negative && (minutes > 0 || hours > 0) {
        let ghost before = views(parts@);
        parts.push(part_text(false, minutes, 'm'));
        assert(views(parts@) == before.push(signed_digits(minutes as int).push('m')));
    }
    let signed_minutes: i64 = if negative {
        -(minutes as i64)
    } else {
        minutes as i64
    };
    if hours == 0 && signed_minutes < show_seconds_threshold_mins {
        let ghost before = views(parts@);
        let part = part_text(negative, secs, 's');
        parts.push(part);
        assert(views(parts@) == before.push(part@));
    }
    let text = join_with_blank(&parts);
    assert(text@.subrange(0, text@.len() as int) == text@);
    string_of(&text, 0, text.len())
}

/// The flags of a timer as shown: nothing when none is set; otherwise a
/// blank and, in square brackets, the names of those that are set, in the
/// order `urgent`, `sound`, `recurring`, with a comma and a blank between
/// each two.
pub open spec fn flags_text(urgent: bool, sound: bool, recurring: bool) -> Seq<char> {
    if !urgent && !sound && !recurring {
        Seq::empty()
    } else {
        let first = if urgent {
            "urgent"@
        } else {
            Seq::empty()
        };
        let second = if sound {
            (if urgent {
                first + ", "@
            } else {
                first
            }) + "sound"@
        } else {
            first
        };
        let third = if recurring {
            (if urgent || sound {
                second + ", "@
            } else {
                second
            }) + "recurring"@
        } else {
            second
        };
        " ["@ + third + "]"@
    }
}

/// The flags of a timer as shown: ` [urgent, sound]`, or nothing. See
/// [`flags_text`].
pub fn format_flags(timer: &Timer) -> (r: String)
    ensures
        r@ == flags_text(timer.urgent, timer.sound, timer.recurring),
{
    if !timer.urgent && !timer.sound && !timer.recurring {
        return String::new();
    }
    let mut names = String::new();
    assert(names@ == Seq::<char>::empty());
    if timer.urgent {
        names.append("urgent");
        assert(names@ == "urgent"@);
    }
    if timer.sound {
        if timer.urgent {
            names.append(", ");
        }
        names.append("sound");
    }
    if timer.recurring {
        if timer.urgent || timer.sound {
            names.append(", ");
        }
        names.append("recurring");
    }
    let mut text = " [".to_owned();
    text.append(names.as_str());
    text.append("]");
    text
}

/// The flags found so far.
pub struct Found {
    pub urgent: bool,
    pub sound: bool,
    pub recurring: bool,
}

/// Whether the word is a group of short flags: it starts with one hyphen and
/// not with two.
pub open spec fn is_short_group(arg: Seq<char>) -> bool {
    arg.len() >= 1 && arg[0] == '-' && !(arg.len() >= 2 && arg[1] == '-')
}

/// What the letters of a group of short flags from `at` on add to the flags
/// found, and whether the group is kept as a word of the input: `u`, `s` and
/// `r` set their flags; the first other letter ends the reading and has the
/// whole word kept, with the flags before it set all the same.
pub open spec fn short_flags(arg: Seq<char>, at: int, found: Found) -> (Found, bool)
    decreases arg.len() - at,
{
    if at < 0 || at >= arg.len() {
        (found, false)
    } else if arg[at] == 'u' {
        short_flags(arg, at + 1, Found { urgent: true, ..found })
    } else if arg[at] == 's' {
        short_flags(arg, at + 1, Found { sound: true, ..found })
    } else if arg[at] == 'r' {
        short_flags(arg, at + 1, Found { recurring: true, ..found })
    } else {
        (found, true)
    }
}

/// What the words from `at` on add to the flags found and to the words
/// kept: `--urgent`, `--sound` and `--recurring` set their flags and are
/// dropped; a group of short flags is read by `short_flags`; every other word
/// is kept.
pub open spec fn sift(args: Seq<Seq<char>>, at: int, found: Found, kept: Seq<Seq<char>>) -> (
    Found,
    Seq<Seq<char>>,
)
    decreases args.len() - at,
{
    if at < 0 || at >= args.len() {
        (found, kept)
    } else {
        let arg = args[at];
        if arg == "--urgent"@ {
            sift(args, at + 1, Found { urgent: true, ..found }, kept)
        } else if arg == "--sound"@ {
            sift(args, at + 1, Found { sound: true, ..found }, kept)
        } else if arg == "--recurring"@ {
            sift(args, at + 1, Found { recurring: true, ..found }, kept)
        } else if is_short_group(arg) {
            let (next, keep) = short_flags(arg, 1, found);
            sift(
                args,
                at + 1,
                next,
                if keep {
                    kept.push(arg)
                } else {
                    kept
                },
            )
        } else {
            sift(args, at + 1, found, kept.push(arg))
        }
    }
}

/// The views of the strings.
pub open spec fn texts(args: Seq<String>) -> Seq<Seq<char>> {
    args.map_values(|arg: String| arg@)
}

/// Picks the flags out of the words of an input.
///
/// Returns the words that are no flags, joined with blanks, and whether
/// `urgent`, `sound` and `recurring` were asked for, in long form
/// (`--urgent`) or short (`-u`, `-usr`), anywhere among the words. See
/// [`sift`].
pub fn extract_flags_from_input(input: &[String]) -> (r: (String, bool, bool, bool))
    ensures
        ({
            let (found, kept) = sift(
                texts(input@),
                0,
                Found { urgent: false, sound: false, recurring: false },
                Seq::empty(),
            );
            &&& r.0@ == joined(kept, ' ')
            &&& r.1 == found.urgent
            &&& r.2 == found.sound
            &&& r.3 == found.recurring
        }),
{
    let ghost args = texts(input@);
    let n = input.len();
    let mut urgent = false;
    let mut sound = false;
    let mut recurring = false;
    let mut kept: Vec<Vec<char>> = Vec::new();
    let mut i: usize = 0;
    assert(views(kept@) == Seq::<Seq<char>>::empty());
    while i < n
        invariant
            n == input@.len(),
            args == texts(input@),
            i <= n,
            sift(args, i as int, Found { urgent, sound, recurring }, views(kept@)) == sift(
                args,
                0,
                Found { urgent: false, sound: false, recurring: false },
                Seq::empty(),
            ),
        decreases n - i,
    {
        let arg = chars_of(input[i].as_str());
        let len = arg.len();
        assert(args[i as int] == arg@);
        assert(arg@.subrange(0, len as int) == arg@);
        let ghost before = views(kept@);
        if range_is(&arg, 0, len, "--urgent") {
            urgent = true;
        } else if range_is(&arg, 0, len, "--sound") {
            sound = true;
        } else if range_is(&arg, 0, len, "--recurring") {
            recurring = true;
        } else if len >= 1 && arg[0] == '-' && !(len >= 2 && arg[1] == '-') {
            let mut at: usize = 1;
            let mut keep = false;
            let ghost old_flags = Found { urgent, sound, recurring };
            while at < len && !keep
                invariant
                    len == arg@.len(),
                    1 <= at <= len,
                    !keep ==> short_flags(arg@, at as int, Found { urgent, sound, recurring })
                        == short_flags(
                        arg@,
                        1,
                        Found {
                            urgent: old_flags.urgent,
                            sound: old_flags.sound,
                            recurring: old_flags.recurring,
                        },
                    ),
                    keep ==> (Found { urgent, sound, recurring }, true) == short_flags(
                        arg@,
                        1,
                        Found {
                            urgent: old_flags.urgent,
                            sound: old_flags.sound,
                            recurring: old_flags.recurring,
                        },
                    ),
                decreases len - at, if keep { 0int } else { 1int },
            {
                let c = arg[at];
                if c == 'u' {
                    urgent = true;
                    at += 1;
                } else if c == 's' {
                    sound = true;
                    at += 1;
                } else if c == 'r' {
                    recurring = true;
                    at += 1;
                } else {
                    keep = true;
                }
            }
            if keep {
                kept.push(arg);
                assert(views(kept@) == before.push(args[i as int]));
            }
        } else {
            kept.push(arg);
            assert(views(kept@) == before.push(args[i as int]));
        }
        i += 1;
    }
    let text = join_with_blank(&kept);
    assert(text@.subrange(0, text@.len() as int) == text@);
    (string_of(&text, 0, text.len()), urgent, sound, recurring)
}

/// The whole seconds from `from` to `to`, rounded toward zero, and kept
/// within 64 bits: instants further apart than that count as that far apart.
pub open spec fn seconds_between(from: int, to: int) -> int {
    let seconds = toward_zero(to - from, NANOS_PER_SECOND as int);
    if seconds > i64::MAX {
        i64::MAX as int
    } else if seconds < i64::MIN {
        i64::MIN as int
    } else {
        seconds
    }
}

/// The whole seconds from `from` to `to`: see [`seconds_between`].
pub fn whole_seconds(from: i128, to: i128) -> (r: i64)
    ensures
        r == seconds_between(from as int, to as int),
{
    if to >= from {
        let seconds: u128 = match to.checked_sub(from) {
            Some(apart) => (apart as u128) / (NANOS_PER_SECOND as u128),
            None => {
                return i64::MAX;
            },
        };
        if seconds > i64::MAX as u128 {
            i64::MAX
        } else {
            seconds as i64
        }
    } else {
        let seconds: u128 = match from.checked_sub(to) {
            Some(apart) => (apart as u128) / (NANOS_PER_SECOND as u128),
            None => {
                return i64::MIN;
            },
        };
        if seconds > i64::MAX as u128 {
            i64::MIN
        } else {
            -(seconds as i64)
        }
    }
}

/// The number in base ten.
pub fn decimal_string(n: u64) -> (r: String)
    ensures
        r@ == digits_of(n as nat),
{
    let mut digits: Vec<char> = Vec::new();
    push_decimal(&mut digits, n);
    assert(digits@ == digits_of(n as nat));
    assert(digits@.subrange(0, digits@.len() as int) == digits@);
    string_of(&digits, 0, digits.len())
}

/// How a timer is named in every line about it: `#`, its id, a colon, and
/// its message in quotes.
pub open spec fn timer_label(timer: Timer) -> Seq<char> {
    "#"@ + digits_of(timer.id as nat) + ": \""@ + timer.message@ + "\""@
}

/// Appends the label of the timer to `text`: see [`timer_label`].
fn push_label(text: &mut String, timer: &Timer)
    ensures
        final(text)@ == old(text)@ + timer_label(*timer),
{
    text.append("#");
    text.append(decimal_string(timer.id as u64).as_str());
    text.append(": \"");
    text.append(timer.message.as_str());
    text.append("\"");
    assert(text@ == old(text)@ + timer_label(*timer));
}

/// The line that confirms a new timer.
pub open spec fn set_text(timer: Timer) -> Seq<char> {
    "Timer #"@ + digits_of(timer.id as nat) + " set for \""@ + timer.message@ + "\" ("@
        + digits_of(timer.duration_seconds as nat) + " seconds)"@ + flags_text(
        timer.urgent,
        timer.sound,
        timer.recurring,
    )
}

/// The line that confirms a new timer: `Timer #3 set for "tea" (300
/// seconds) [urgent]`.
pub fn set_line(timer: &Timer) -> (r: String)
    ensures
        r@ == set_text(*timer),
{
    let mut text = "Timer #".to_owned();
    text.append(decimal_string(timer.id as u64).as_str());
    text.append(" set for \"");
    text.append(timer.message.as_str());
    text.append("\" (");
    text.append(decimal_string(timer.duration_seconds).as_str());
    text.append(" seconds)");
    text.append(format_flags(timer).as_str());
    text
}

/// The line that tells when a new timer will notify, at `now`: in how long,
/// with seconds shown below five minutes, if it is more than a second away;
/// else that it is ready.
pub open spec fn notify_text(timer: Timer, now: int) -> Seq<char> {
    let seconds = seconds_between(now, timer.due_at as int);
    if seconds > 0 {
        "Break will notify you in "@ + duration_text(seconds, 5)
    } else {
        "Break notification is ready!"@
    }
}

/// The line that tells when a new timer will notify: see [`notify_text`].
pub fn notify_line(timer: &Timer, now: i128) -> (r: String)
    ensures
        r@ == notify_text(*timer, now as int),
{
    let seconds = whole_seconds(now, timer.due_at);
    if seconds > 0 {
        let mut text = "Break will notify you in ".to_owned();
        text.append(format_duration(seconds, 5).as_str());
        text
    } else {
        "Break notification is ready!".to_owned()
    }
}

/// The line for an active timer in the list, at `now`: its label, then how
/// long remains, seconds always shown, or `EXPIRED` when it is due within a
/// second or overdue; then its flags.
pub open spec fn active_text(timer: Timer, now: int) -> Seq<char> {
    let seconds = seconds_between(now, timer.due_at as int);
    let flags = flags_text(timer.urgent, timer.sound, timer.recurring);
    if seconds > 0 {
        "  "@ + timer_label(timer) + " - "@ + duration_text(seconds, i64::MAX as int)
            + " remaining"@ + flags
    } else {
        "  "@ + timer_label(timer) + " - EXPIRED"@ + flags
    }
}

/// The line for an active timer in the list: see [`active_text`].
pub fn active_line(timer: &Timer, now: i128) -> (r: String)
    ensures
        r@ == active_text(*timer, now as int),
{
    let seconds = whole_seconds(now, timer.due_at);
    let mut text = "  ".to_owned();
    push_label(&mut text, timer);
    if seconds > 0 {
        text.append(" - ");
        text.append(format_duration(seconds, i64::MAX).as_str());
        text.append(" remaining");
    } else {
        text.append(" - EXPIRED");
    }
    text.append(format_flags(timer).as_str());
    text
}

/// A number of seconds without its sign, kept within 64 bits.
pub open spec fn magnitude(seconds: int) -> int {
    if seconds >= 0 {
        seconds
    } else if -seconds > i64::MAX {
        i64::MAX as int
    } else {
        -seconds
    }
}

/// The line for a completed timer in the history, at `now`: its label, then
/// how long ago it fell due, as `< 1m` below a minute and else in hours and
/// minutes; then its flags.
pub open spec fn history_text(timer: Timer, now: int) -> Seq<char> {
    let ago = magnitude(seconds_between(timer.due_at as int, now));
    let flags = flags_text(timer.urgent, timer.sound, timer.recurring);
    let shown = if ago < 60 {
        "< 1m"@
    } else {
        duration_text(ago, i64::MAX as int)
    };
    "  "@ + timer_label(timer) + " - completed "@ + shown + " ago"@ + flags
}

/// The line for a completed timer in the history: see [`history_text`].
pub fn history_line(timer: &Timer, now: i128) -> (r: String)
    ensures
        r@ == history_text(*timer, now as int),
{
    let elapsed = whole_seconds(timer.due_at, now);
    let ago: i64 = if elapsed >= 0 {
        elapsed
    } else if elapsed == i64::MIN {
        i64::MAX
    } else {
        -elapsed
    };
    let mut text = "  ".to_owned();
    push_label(&mut text, timer);
    text.append(" - completed ");
    if ago < 60 {
        text.append("< 1m");
    } else {
        text.append(format_duration(ago, i64::MAX).as_str());
    }
    text.append(" ago");
    text.append(format_flags(timer).as_str());
    text
}

/// The line that reports a removal: the timer removed, or that there is none
/// with the id.
pub open spec fn removed_text(id: u32, removed: Option<Timer>) -> Seq<char> {
    match removed {
        Some(timer) => "Removed timer "@ + timer_label(timer),
        None => "Timer #"@ + digits_of(id as nat) + " not found"@,
    }
}

/// The line that reports a removal: see [`removed_text`].
pub fn removed_line(id: u32, removed: &Option<Timer>) -> (r: String)
    ensures
        r@ == removed_text(id, *removed),
{
    match removed {
        Some(timer) => {
            let mut text = "Removed timer ".to_owned();
            push_label(&mut text, timer);
            text
        },
        None => {
            let mut text = "Timer #".to_owned();
            text.append(decimal_string(id as u64).as_str());
            text.append(" not found");
            text
        },
    }
}

} // verus!
