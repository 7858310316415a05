//! The parser for the command line's input: durations and a message, mixed
//! freely.
//!
//! `5m get coffee`, `1h 30m break`, `1:30:45 long break` and `wait 5m and then
//! 10s more` all give a number of seconds and a message. Every duration found
//! is added up; what is left, in its order, is the message.

use vstd::prelude::*;
use vstd::string::*;
use crate::platform::{lowercase_of, to_lowercase};
use crate::text::{
    chars_of, copy_range, decimal, digits_of, is_ascii_digit, is_digit, is_space,
    is_whitespace, join_with_blank, joined, lemma_run_end, parse_decimal, push_decimal, range_is,
    run_end, scan_run, split_words, string_of, trim, trimmed, views, words, Run,
};

verus! {

/// Seconds in a minute.
pub const SECONDS_PER_MINUTE: u64 = 60;

/// Seconds in an hour.
pub const SECONDS_PER_HOUR: u64 = 3600;

/// Why an input was refused.
#[derive(Debug)]
pub struct ParseError(pub String);

impl ParseError {
    /// The error as text for the user: `Parse error: ` and the reason.
    pub fn to_text(&self) -> (text: String)
        ensures
            text@ == "Parse error: "@ + self.0@,
    {
        let mut text = "Parse error: ".to_owned();
        text.append(self.0.as_str());
        text
    }
}

/// The reason given when a sum of durations does not fit in 64 bits.
pub open spec fn too_large() -> Seq<char> {
    "Duration too large"@
}

/// The reason given when the input holds durations and nothing else.
pub open spec fn no_message() -> Seq<char> {
    "No message found in input"@
}

/// The reason given when the input holds nothing at all.
pub open spec fn empty_input() -> Seq<char> {
    "Empty input"@
}

/// The reason given when the input holds no duration, or durations that add
/// up to nothing.
pub open spec fn no_duration() -> Seq<char> {
    "No valid duration found in input"@
}

/// What an outcome says, with the error taken by its reason.
pub open spec fn outcome<T>(r: Result<T, ParseError>) -> Result<T, Seq<char>> {
    match r {
        Ok(v) => Ok(v),
        Err(e) => Err(e.0@),
    }
}

/// An error whose reason is `reason`.
fn refuse(reason: &str) -> (e: ParseError)
    ensures
        e.0@ == reason@,
{
    ParseError(reason.to_owned())
}

/// An error whose reason is `lead`, then `chars[from..to]`, then `trail`.
fn refuse_with(lead: &str, chars: &Vec<char>, from: usize, to: usize, trail: &str) -> (e:
    ParseError)
    requires
        from <= to <= chars@.len(),
    ensures
        e.0@ == lead@ + chars@.subrange(from as int, to as int) + trail@,
{
    let mut reason = lead.to_owned();
    let mut i: usize = from;
    assert(chars@.subrange(from as int, from as int) == Seq::<char>::empty());
    while i < to
        invariant
            from <= i <= to <= chars@.len(),
            reason@ == lead@ + chars@.subrange(from as int, i as int),
        decreases to - i,
    {
        reason.push(chars[i]);
        assert(chars@.subrange(from as int, i + 1) == chars@.subrange(from as int, i as int).push(
            chars@[i as int],
        ));
        i += 1;
    }
    reason.append(trail);
    ParseError(reason)
}

/// The number that one of the words `one` to `nine` names.
pub open spec fn unit_word(w: Seq<char>) -> Option<u64> {
    if w == "one"@ {
        Some(1)
    } else if w == "two"@ {
        Some(2)
    } else if w == "three"@ {
        Some(3)
    } else if w == "four"@ {
        Some(4)
    } else if w == "five"@ {
        Some(5)
    } else if w == "six"@ {
        Some(6)
    } else if w == "seven"@ {
        Some(7)
    } else if w == "eight"@ {
        Some(8)
    } else if w == "nine"@ {
        Some(9)
    } else {
        None
    }
}

/// The number that a word on its own names: `zero` to `nineteen`, the tens
/// from `twenty` to `sixty`, and the misspellings that are let pass (`oen`,
/// `tow`, `thre`, `foru`, `fiev`, `sevne`, `nien`, `elevne`, `fourty`).
pub open spec fn simple_word(w: Seq<char>) -> Option<u64> {
    if unit_word(w) is Some {
        unit_word(w)
    } else if w == "zero"@ {
        Some(0)
    } else if w == "oen"@ {
        Some(1)
    } else if w == "tow"@ {
        Some(2)
    } else if w == "thre"@ {
        Some(3)
    } else if w == "foru"@ {
        Some(4)
    } else if w == "fiev"@ {
        Some(5)
    } else if w == "sevne"@ {
        Some(7)
    } else if w == "nien"@ {
        Some(9)
    } else if w == "ten"@ {
        Some(10)
    } else if w == "eleven"@ || w == "elevne"@ {
        Some(11)
    } else if w == "twelve"@ {
        Some(12)
    } else if w == "thirteen"@ {
        Some(13)
    } else if w == "fourteen"@ {
        Some(14)
    } else if w == "fifteen"@ {
        Some(15)
    } else if w == "sixteen"@ {
        Some(16)
    } else if w == "seventeen"@ {
        Some(17)
    } else if w == "eighteen"@ {
        Some(18)
    } else if w == "nineteen"@ {
        Some(19)
    } else if w == "twenty"@ {
        Some(20)
    } else if w == "thirty"@ {
        Some(30)
    } else if w == "forty"@ || w == "fourty"@ {
        Some(40)
    } else if w == "fifty"@ {
        Some(50)
    } else if w == "sixty"@ {
        Some(60)
    } else {
        None
    }
}

/// The number that `w` names as a compound of `tens`, which is worth
/// `value`: `tens`, then a hyphen or nothing, then one of `one` to `nine`.
pub open spec fn compound_of(w: Seq<char>, tens: Seq<char>, value: u64) -> Option<u64> {
    if tens.len() <= w.len() && w.take(tens.len() as int) == tens {
        let rest = w.skip(tens.len() as int);
        let unit = if rest.len() > 0 && rest[0] == '-' {
            rest.skip(1)
        } else {
            rest
        };
        match unit_word(unit) {
            Some(u) => Some((value + u) as u64),
            None => None,
        }
    } else {
        None
    }
}

/// The number that a word names, if it names one: a word on its own
/// (`simple_word`), or a compound of `twenty`, `thirty`, `forty`, `fourty` or
/// `fifty` with `one` to `nine`, written as one word or with a hyphen
/// (`twentyone`, `forty-five`).
pub open spec fn number_word(w: Seq<char>) -> Option<u64> {
    if simple_word(w) is Some {
        simple_word(w)
    } else if compound_of(w, "twenty"@, 20) is Some {
        compound_of(w, "twenty"@, 20)
    } else if compound_of(w, "thirty"@, 30) is Some {
        compound_of(w, "thirty"@, 30)
    } else if compound_of(w, "forty"@, 40) is Some {
        compound_of(w, "forty"@, 40)
    } else if compound_of(w, "fourty"@, 40) is Some {
        compound_of(w, "fourty"@, 40)
    } else {
        compound_of(w, "fifty"@, 50)
    }
}

/// The number that `chars[from..to]` names as one of `one` to `nine`.
fn unit_word_in(chars: &Vec<char>, from: usize, to: usize) -> (r: Option<u64>)
    requires
        from <= to <= chars@.len(),
    ensures
        r == unit_word(chars@.subrange(from as int, to as int)),
{
    if range_is(chars, from, to, "one") {
        Some(1)
    } else if range_is(chars, from, to, "two") {
        Some(2)
    } else if range_is(chars, from, to, "three") {
        Some(3)
    } else if range_is(chars, from, to, "four") {
        Some(4)
    } else if range_is(chars, from, to, "five") {
        Some(5)
    } else if range_is(chars, from, to, "six") {
        Some(6)
    } else if range_is(chars, from, to, "seven") {
        Some(7)
    } else if range_is(chars, from, to, "eight") {
        Some(8)
    } else if range_is(chars, from, to, "nine") {
        Some(9)
    } else {
        None
    }
}

/// The number that `chars[from..to]` names as a word on its own.
fn simple_word_in(chars: &Vec<char>, from: usize, to: usize) -> (r: Option<u64>)
    requires
        from <= to <= chars@.len(),
    ensures
        r == simple_word(chars@.subrange(from as int, to as int)),
{
    let unit = unit_word_in(chars, from, to);
    if unit.is_some() {
        unit
    } else if range_is(chars, from, to, "zero") {
        Some(0)
    } else if range_is(chars, from, to, "oen") {
        Some(1)
    } else if range_is(chars, from, to, "tow") {
        Some(2)
    } else if range_is(chars, from, to, "thre") {
        Some(3)
    } else if range_is(chars, from, to, "foru") {
        Some(4)
    } else if range_is(chars, from, to, "fiev") {
        Some(5)
    } else if range_is(chars, from, to, "sevne") {
        Some(7)
    } else if range_is(chars, from, to, "nien") {
        Some(9)
    } else if range_is(chars, from, to, "ten") {
        Some(10)
    } else if range_is(chars, from, to, "eleven") || range_is(chars, from, to, "elevne") {
        Some(11)
    } else if range_is(chars, from, to, "twelve") {
        Some(12)
    } else if range_is(chars, from, to, "thirteen") {
        Some(13)
    } else if range_is(chars, from, to, "fourteen") {
        Some(14)
    } else if range_is(chars, from, to, "fifteen") {
        Some(15)
    } else if range_is(chars, from, to, "sixteen") {
        Some(16)
    } else if range_is(chars, from, to, "seventeen") {
        Some(17)
    } else if range_is(chars, from, to, "eighteen") {
        Some(18)
    } else if range_is(chars, from, to, "nineteen") {
        Some(19)
    } else if range_is(chars, from, to, "twenty") {
        Some(20)
    } else if range_is(chars, from, to, "thirty") {
        Some(30)
    } else if range_is(chars, from, to, "forty") || range_is(chars, from, to, "fourty") {
        Some(40)
    } else if range_is(chars, from, to, "fifty") {
        Some(50)
    } else if range_is(chars, from, to, "sixty") {
        Some(60)
    } else {
        None
    }
}

/// The number that `chars[from..to]` names as a compound of `tens`.
fn compound_in(chars: &Vec<char>, from: usize, to: usize, tens: &str, value: u64) -> (r: Option<
    u64,
>)
    requires
        from <= to <= chars@.len(),
        value <= 50,
    ensures
        r == compound_of(chars@.subrange(from as int, to as int), tens@, value),
{
    let ghost w = chars@.subrange(from as int, to as int);
    let n = tens.unicode_len();
    if n > to - from {
        return None;
    }
    assert(w.take(n as int) == chars@.subrange(from as int, from + n));
    if !range_is(chars, from, from + n, tens) {
        return None;
    }
    let mut at = from + n;
    assert(w.skip(n as int) == chars@.subrange(at as int, to as int));
    if at < to && chars[at] == '-' {
        assert(w.skip(n as int)[0] == '-');
        assert(w.skip(n as int).skip(1) == chars@.subrange(at + 1, to as int));
        at += 1;
    }
    match unit_word_in(chars, at, to) {
        Some(u) => {
            proof {
                reveal_strlit("one");
                reveal_strlit("two");
                reveal_strlit("three");
                reveal_strlit("four");
                reveal_strlit("five");
                reveal_strlit("six");
                reveal_strlit("seven");
                reveal_strlit("eight");
                reveal_strlit("nine");
            }
            Some(value + u)
        },
        None => None,
    }
}

/// The number that `chars[from..to]` names: see [`number_word`].
pub fn number_word_in(chars: &Vec<char>, from: usize, to: usize) -> (r: Option<u64>)
    requires
        from <= to <= chars@.len(),
    ensures
        r == number_word(chars@.subrange(from as int, to as int)),
{
    let simple = simple_word_in(chars, from, to);
    if simple.is_some() {
        return simple;
    }
    let twenty = compound_in(chars, from, to, "twenty", 20);
    if twenty.is_some() {
        return twenty;
    }
    let thirty = compound_in(chars, from, to, "thirty", 30);
    if thirty.is_some() {
        return thirty;
    }
    let forty = compound_in(chars, from, to, "forty", 40);
    if forty.is_some() {
        return forty;
    }
    let fourty = compound_in(chars, from, to, "fourty", 40);
    if fourty.is_some() {
        return fourty;
    }
    compound_in(chars, from, to, "fifty", 50)
}

/// The number that the word names, if it names one: see [`number_word`].
pub fn parse_number_word(word: &str) -> (r: Option<u64>)
    ensures
        r == number_word(word@),
{
    let chars = chars_of(word);
    assert(chars@.subrange(0, chars@.len() as int) == chars@);
    number_word_in(&chars, 0, chars.len())
}

/// The seconds in the unit of time that the word names, if it names one:
/// hours (`h`, `hr`, `hrs`, `hour`, `hours`), minutes (`m`, `min`, `mins`,
/// `minute`, `minutes`), seconds (`s`, `sec`, `secs`, `second`, `seconds`),
/// and the misspellings that are let pass (`horus`, `housr`, `mintues`,
/// `secodns`).
pub open spec fn unit_seconds(w: Seq<char>) -> Option<u64> {
    if w == "h"@ || w == "hr"@ || w == "hrs"@ || w == "hour"@ || w == "hours"@ || w == "horus"@
        || w == "housr"@ {
        Some(SECONDS_PER_HOUR)
    } else if w == "m"@ || w == "min"@ || w == "mins"@ || w == "minute"@ || w == "minutes"@ || w
        == "mintues"@ {
        Some(SECONDS_PER_MINUTE)
    } else if w == "s"@ || w == "sec"@ || w == "secs"@ || w == "second"@ || w == "seconds"@ || w
        == "secodns"@ {
        Some(1)
    } else {
        None
    }
}

/// The reason given for a word that names no unit of time.
pub open spec fn unknown_unit(w: Seq<char>) -> Seq<char> {
    "Unknown time unit: '"@ + w + "'"@
}

/// The seconds in the unit of time that the text names: see
/// [`unit_seconds`].
pub fn unit_seconds_of(chars: &Vec<char>) -> (r: Option<u64>)
    ensures
        r == unit_seconds(chars@),
{
    let n = chars.len();
    assert(chars@.subrange(0, n as int) == chars@);
    if range_is(chars, 0, n, "h") || range_is(chars, 0, n, "hr") || range_is(chars, 0, n, "hrs")
        || range_is(chars, 0, n, "hour") || range_is(chars, 0, n, "hours") || range_is(
        chars,
        0,
        n,
        "horus",
    ) || range_is(chars, 0, n, "housr") {
        Some(SECONDS_PER_HOUR)
    } else if range_is(chars, 0, n, "m") || range_is(chars, 0, n, "min") || range_is(
        chars,
        0,
        n,
        "mins",
    ) || range_is(chars, 0, n, "minute") || range_is(chars, 0, n, "minutes") || range_is(
        chars,
        0,
        n,
        "mintues",
    ) {
        Some(SECONDS_PER_MINUTE)
    } else if range_is(chars, 0, n, "s") || range_is(chars, 0, n, "sec") || range_is(
        chars,
        0,
        n,
        "secs",
    ) || range_is(chars, 0, n, "second") || range_is(chars, 0, n, "seconds") || range_is(
        chars,
        0,
        n,
        "secodns",
    ) {
        Some(1)
    } else {
        None
    }
}

/// The seconds in a unit of time. A word that names none is refused, with
/// the word in the reason.
pub fn parse_unit(unit: &str) -> (r: Result<u64, ParseError>)
    ensures
        outcome(r) == match unit_seconds(unit@) {
            Some(seconds) => Ok::<u64, Seq<char>>(seconds),
            None => Err(unknown_unit(unit@)),
        },
{
    let chars = chars_of(unit);
    match unit_seconds_of(&chars) {
        Some(seconds) => Ok(seconds),
        None => {
            assert(chars@.subrange(0, chars@.len() as int) == chars@);
            Err(refuse_with("Unknown time unit: '", &chars, 0, chars.len(), "'"))
        },
    }
}

/// Whether the word is a time written with colons: it holds a colon, and
/// digits and colons only.
pub open spec fn is_colon(w: Seq<char>) -> bool {
    &&& exists|i: int| 0 <= i < w.len() && #[trigger] w[i] == ':'
    &&& forall|i: int| 0 <= i < w.len() ==> is_digit(#[trigger] w[i]) || w[i] == ':'
}

/// Whether the text is a time written with colons: see [`is_colon`].
pub fn is_colon_time_of(chars: &Vec<char>) -> (r: bool)
    ensures
        r == is_colon(chars@),
{
    let mut found = false;
    let mut i: usize = 0;
    while i < chars.len()
        invariant
            i <= chars@.len(),
            found <==> exists|k: int| 0 <= k < i && #[trigger] chars@[k] == ':',
            forall|k: int| 0 <= k < i ==> is_digit(#[trigger] chars@[k]) || chars@[k] == ':',
        decreases chars@.len() - i,
    {
        let c = chars[i];
        if c == ':' {
            found = true;
        } else if !is_ascii_digit(c) {
            return false;
        }
        i += 1;
    }
    found
}

/// Whether the text is a time written with colons: see [`is_colon`].
pub fn is_colon_time(s: &str) -> (r: bool)
    ensures
        r == is_colon(s@),
{
    let chars = chars_of(s);
    is_colon_time_of(&chars)
}

/// The number that a field of a time denotes, if it denotes one that fits in
/// 64 bits.
pub open spec fn field_value(field: Seq<char>) -> Option<u64> {
    match decimal(field) {
        Some(n) => if n <= u64::MAX {
            Some(n as u64)
        } else {
            None
        },
        None => None,
    }
}

/// The seconds in `hours`, `minutes` and `seconds`, unless they exceed 64
/// bits.
pub open spec fn clock_seconds(hours: u64, minutes: u64, seconds: u64) -> Result<u64, Seq<char>> {
    let all = hours * SECONDS_PER_HOUR + minutes * SECONDS_PER_MINUTE + seconds;
    if all <= u64::MAX {
        Ok(all as u64)
    } else {
        Err(too_large())
    }
}

/// The seconds in a time written with colons.
///
/// The text is cut at its colons. One field is seconds; two are minutes and
/// seconds; three are hours, minutes and seconds; more are refused. Each
/// field has to denote a number, and the first that does not is named in the
/// reason. A time of more seconds than fit in 64 bits is refused.
pub open spec fn colon_seconds(w: Seq<char>) -> Result<u64, Seq<char>> {
    let end0 = run_end(w, 0, Run::Field);
    if end0 >= w.len() {
        match field_value(w) {
            Some(seconds) => Ok(seconds),
            None => Err("Invalid seconds: "@ + w),
        }
    } else {
        let first = w.subrange(0, end0);
        let end1 = run_end(w, end0 + 1, Run::Field);
        if end1 >= w.len() {
            let second = w.subrange(end0 + 1, w.len() as int);
            match field_value(first) {
                None => Err("Invalid minutes: "@ + first),
                Some(minutes) => match field_value(second) {
                    None => Err("Invalid seconds: "@ + second),
                    Some(seconds) => clock_seconds(0, minutes, seconds),
                },
            }
        } else {
            let second = w.subrange(end0 + 1, end1);
            let end2 = run_end(w, end1 + 1, Run::Field);
            if end2 >= w.len() {
                let third = w.subrange(end1 + 1, w.len() as int);
                match field_value(first) {
                    None => Err("Invalid hours: "@ + first),
                    Some(hours) => match field_value(second) {
                        None => Err("Invalid minutes: "@ + second),
                        Some(minutes) => match field_value(third) {
                            None => Err("Invalid seconds: "@ + third),
                            Some(seconds) => clock_seconds(hours, minutes, seconds),
                        },
                    },
                }
            } else {
                Err("Invalid time format: "@ + w)
            }
        }
    }
}

/// The seconds in `hours`, `minutes` and `seconds`: see [`clock_seconds`].
fn clock_seconds_of(hours: u64, minutes: u64, seconds: u64) -> (r: Result<u64, ParseError>)
    ensures
        outcome(r) == clock_seconds(hours, minutes, seconds),
{
    let from_hours = hours.checked_mul(SECONDS_PER_HOUR);
    let from_minutes = minutes.checked_mul(SECONDS_PER_MINUTE);
    match (from_hours, from_minutes) {
        (Some(a), Some(b)) => match a.checked_add(b) {
            Some(ab) => match ab.checked_add(seconds) {
                Some(all) => Ok(all),
                None => Err(refuse("Duration too large")),
            },
            None => Err(refuse("Duration too large")),
        },
        _ => Err(refuse("Duration too large")),
    }
}

/// The number that the field `chars[from..to]` denotes, or the error that
/// names the field after `lead`.
fn field_of(chars: &Vec<char>, from: usize, to: usize, lead: &str) -> (r: Result<u64, ParseError>)
    requires
        from <= to <= chars@.len(),
    ensures
        outcome(r) == match field_value(chars@.subrange(from as int, to as int)) {
            Some(n) => Ok::<u64, Seq<char>>(n),
            None => Err(lead@ + chars@.subrange(from as int, to as int)),
        },
{
    match parse_decimal(chars, from, to) {
        Some(n) => Ok(n),
        None => {
            let e = refuse_with(lead, chars, from, to, "");
            proof {
                reveal_strlit("");
                assert(e.0@ == lead@ + chars@.subrange(from as int, to as int));
            }
            Err(e)
        },
    }
}

/// The seconds in a time written with colons: see [`colon_seconds`].
pub fn colon_seconds_of(chars: &Vec<char>) -> (r: Result<u64, ParseError>)
    ensures
        outcome(r) == colon_seconds(chars@),
{
    let n = chars.len();
    let ghost w = chars@;
    assert(w.subrange(0, n as int) == w);
    let end0 = scan_run(chars, 0, Run::Field);
    if end0 >= n {
        return field_of(chars, 0, n, "Invalid seconds: ");
    }
    let end1 = scan_run(chars, end0 + 1, Run::Field);
    if end1 >= n {
        let minutes = match field_of(chars, 0, end0, "Invalid minutes: ") {
            Ok(v) => v,
            Err(e) => {
                return Err(e);
            },
        };
        let seconds = match field_of(chars, end0 + 1, n, "Invalid seconds: ") {
            Ok(v) => v,
            Err(e) => {
                return Err(e);
            },
        };
        return clock_seconds_of(0, minutes, seconds);
    }
    let end2 = scan_run(chars, end1 + 1, Run::Field);
    if end2 >= n {
        let hours = match field_of(chars, 0, end0, "Invalid hours: ") {
            Ok(v) => v,
            Err(e) => {
                return Err(e);
            },
        };
        let minutes = match field_of(chars, end0 + 1, end1, "Invalid minutes: ") {
            Ok(v) => v,
            Err(e) => {
                return Err(e);
            },
        };
        let seconds = match field_of(chars, end1 + 1, n, "Invalid seconds: ") {
            Ok(v) => v,
            Err(e) => {
                return Err(e);
            },
        };
        return clock_seconds_of(hours, minutes, seconds);
    }
    Err(field_error("Invalid time format: ", chars))
}

/// The error whose reason is `lead` and then the whole text.
fn field_error(lead: &str, chars: &Vec<char>) -> (e: ParseError)
    ensures
        e.0@ == lead@ + chars@,
{
    let e = refuse_with(lead, chars, 0, chars.len(), "");
    proof {
        reveal_strlit("");
        assert(chars@.subrange(0, chars@.len() as int) == chars@);
        assert(e.0@ == lead@ + chars@);
    }
    e
}

/// The seconds in a time written with colons: `1:30:45` is 5445, `5:30` is
/// 330, `45` is 45. See [`colon_seconds`].
pub fn parse_colon_time(s: &str) -> (r: Result<u64, ParseError>)
    ensures
        outcome(r) == colon_seconds(s@),
{
    let chars = chars_of(s);
    colon_seconds_of(&chars)
}

/// A piece of the input: a number, or text.
#[derive(Debug)]
pub enum Token {
    Number(u64),
    Unit(Vec<char>),
}

/// A piece of the input as a mathematical value.
pub enum Lexeme {
    Number(u64),
    Unit(Seq<char>),
}

impl View for Token {
    type V = Lexeme;

    open spec fn view(&self) -> Lexeme {
        match self {
            Token::Number(n) => Lexeme::Number(*n),
            Token::Unit(text) => Lexeme::Unit(text@),
        }
    }
}

/// The tokens as mathematical values.
pub open spec fn lexemes(tokens: Seq<Token>) -> Seq<Lexeme> {
    tokens.map_values(|token: Token| token@)
}

/// The reason given for a run of digits that denotes no number of 64 bits.
pub open spec fn invalid_number(digits: Seq<char>) -> Seq<char> {
    "Invalid number: "@ + digits
}

/// The lexeme for a run of text that ends at white space or at the end of the
/// input (`closes`) or at a digit: the number it names where it closes a word
/// and names one, else the text itself.
pub open spec fn text_lexeme(run: Seq<char>, closes: bool) -> Lexeme {
    if closes && number_word(run) is Some {
        Lexeme::Number(number_word(run)->0)
    } else {
        Lexeme::Unit(run)
    }
}

/// The lexemes of `s` from `from` on, after `done`.
///
/// White space separates and is dropped. A run of digits is a number; one
/// that does not fit in 64 bits is refused. A run of anything else is text,
/// or the number it names if it names one and white space or the end of
/// input follows it.
///
/// A run that starts at `from` ends after `from` and within the text
/// (`lemma_run_end`); the branches for a run that does not are never taken
/// and are there so that the definition visibly terminates.
pub open spec fn lex_from(s: Seq<char>, from: int, done: Seq<Lexeme>) -> Result<
    Seq<Lexeme>,
    Seq<char>,
>
    decreases s.len() - from,
{
    if from < 0 || from >= s.len() {
        Ok(done)
    } else if is_space(s[from]) {
        lex_from(s, from + 1, done)
    } else if is_digit(s[from]) {
        let to = run_end(s, from, Run::Digits);
        if from < to <= s.len() {
            match field_value(s.subrange(from, to)) {
                Some(n) => lex_from(s, to, done.push(Lexeme::Number(n))),
                None => Err(invalid_number(s.subrange(from, to))),
            }
        } else {
            Ok(done)
        }
    } else {
        let to = run_end(s, from, Run::Text);
        if from < to <= s.len() {
            let closes = to >= s.len() || is_space(s[to]);
            lex_from(s, to, done.push(text_lexeme(s.subrange(from, to), closes)))
        } else {
            Ok(done)
        }
    }
}

/// The lexemes of a text: see [`lex_from`].
pub open spec fn lexed(s: Seq<char>) -> Result<Seq<Lexeme>, Seq<char>> {
    lex_from(s, 0, Seq::empty())
}

/// What the outcome of lexing says.
pub open spec fn lex_outcome(r: Result<Vec<Token>, ParseError>) -> Result<Seq<Lexeme>, Seq<char>> {
    match r {
        Ok(tokens) => Ok(lexemes(tokens@)),
        Err(e) => Err(e.0@),
    }
}

/// The tokens of a text that is already trimmed and in lowercase: exactly
/// [`lexed`].
pub fn lex(chars: &Vec<char>) -> (r: Result<Vec<Token>, ParseError>)
    ensures
        lex_outcome(r) == lexed(chars@),
{
    let n = chars.len();
    let mut out: Vec<Token> = Vec::new();
    let mut i: usize = 0;
    assert(lexemes(out@) == Seq::<Lexeme>::empty());
    while i < n
        invariant
            n == chars@.len(),
            i <= n,
            lex_from(chars@, i as int, lexemes(out@)) == lexed(chars@),
        decreases n - i,
    {
        let c = chars[i];
        let ghost done = lexemes(out@);
        if is_whitespace(c) {
            i += 1;
        } else if is_ascii_digit(c) {
            let to = scan_run(chars, i, Run::Digits);
            proof {
                lemma_run_end(chars@, i as int, Run::Digits);
            }
            match parse_decimal(chars, i, to) {
                Some(value) => {
                    out.push(Token::Number(value));
                    assert(lexemes(out@) == done.push(Lexeme::Number(value)));
                    i = to;
                },
                None => {
                    let e = refuse_with("Invalid number: ", chars, i, to, "");
                    proof {
                        reveal_strlit("");
                        assert(e.0@ == invalid_number(chars@.subrange(i as int, to as int)));
                    }
                    return Err(e);
                },
            }
        } else {
            let to = scan_run(chars, i, Run::Text);
            proof {
                lemma_run_end(chars@, i as int, Run::Text);
            }
            let closes = to >= n || is_whitespace(chars[to]);
            let named = if closes {
                number_word_in(chars, i, to)
            } else {
                None
            };
            let token = match named {
                Some(value) => Token::Number(value),
                None => Token::Unit(copy_range(chars, i, to)),
            };
            assert(token@ == text_lexeme(chars@.subrange(i as int, to as int), closes));
            out.push(token);
            assert(lexemes(out@) == done.push(token@));
            i = to;
        }
    }
    Ok(out)
}

/// The tokens of a text: the text is trimmed and put in lowercase, then
/// lexed. See [`lexed`].
pub fn tokenize(input: &str) -> (r: Result<Vec<Token>, ParseError>)
    ensures
        lex_outcome(r) == lexed(lowercase_of(trimmed(input@))),
{
    let chars = chars_of(input);
    let kept = trim(&chars);
    assert(kept@.subrange(0, kept@.len() as int) == kept@);
    let text = string_of(&kept, 0, kept.len());
    let lowered = to_lowercase(text.as_str());
    let lowered_chars = chars_of(lowered.as_str());
    lex(&lowered_chars)
}

/// What the tokens from `at` on add to the durations and the message
/// gathered so far.
///
/// A number followed by text that names a unit of time is a duration of that
/// many units. A number followed by any other text is message: the number in
/// base ten, then the text. A number followed by a number, or by nothing, is
/// message. Text that no number precedes is message.
pub open spec fn gather(tokens: Seq<Lexeme>, at: int, total: nat, parts: Seq<Seq<char>>) -> (
    nat,
    Seq<Seq<char>>,
)
    decreases tokens.len() - at,
{
    if at < 0 || at >= tokens.len() {
        (total, parts)
    } else {
        match tokens[at] {
            Lexeme::Number(n) => {
                if at + 1 < tokens.len() && tokens[at + 1] is Unit {
                    let unit = tokens[at + 1]->Unit_0;
                    match unit_seconds(unit) {
                        Some(seconds) => gather(tokens, at + 2, (total + n * seconds) as nat, parts),
                        None => gather(
                            tokens,
                            at + 2,
                            total,
                            parts.push(digits_of(n as nat)).push(unit),
                        ),
                    }
                } else {
                    gather(tokens, at + 1, total, parts.push(digits_of(n as nat)))
                }
            },
            Lexeme::Unit(text) => gather(tokens, at + 1, total, parts.push(text)),
        }
    }
}

/// Gathering only ever adds to the durations.
pub proof fn lemma_gather_grows(tokens: Seq<Lexeme>, at: int, total: nat, parts: Seq<Seq<char>>)
    ensures
        gather(tokens, at, total, parts).0 >= total,
    decreases tokens.len() - at,
{
    if 0 <= at < tokens.len() {
        match tokens[at] {
            Lexeme::Number(n) => {
                if at + 1 < tokens.len() && tokens[at + 1] is Unit {
                    let unit = tokens[at + 1]->Unit_0;
                    match unit_seconds(unit) {
                        Some(seconds) => {
                            assert(n * seconds >= 0) by (nonlinear_arith)
                                requires
                                    n >= 0,
                                    seconds >= 0,
                            ;
                            lemma_gather_grows(tokens, at + 2, (total + n * seconds) as nat, parts);
                        },
                        None => {
                            lemma_gather_grows(
                                tokens,
                                at + 2,
                                total,
                                parts.push(digits_of(n as nat)).push(unit),
                            );
                        },
                    }
                } else {
                    lemma_gather_grows(tokens, at + 1, total, parts.push(digits_of(n as nat)));
                }
            },
            Lexeme::Unit(text) => {
                lemma_gather_grows(tokens, at + 1, total, parts.push(text));
            },
        }
    }
}

/// The duration and the message that the tokens give, on top of
/// `colon_total` seconds from times written with colons.
///
/// The durations are added up (`gather`). A sum that exceeds 64 bits is
/// refused; so is a sum of zero; so is an empty message. Otherwise the
/// message is the gathered parts with a blank between each two.
pub open spec fn assembled(tokens: Seq<Lexeme>, colon_total: u64) -> Result<
    (u64, Seq<char>),
    Seq<char>,
> {
    let (total, parts) = gather(tokens, 0, colon_total as nat, Seq::empty());
    if total > u64::MAX {
        Err(too_large())
    } else if total == 0 {
        Err(no_duration())
    } else if joined(parts, ' ').len() == 0 {
        Err(no_message())
    } else {
        Ok((total as u64, joined(parts, ' ')))
    }
}

/// What the outcome of parsing says.
pub open spec fn parse_outcome(r: Result<(u64, String), ParseError>) -> Result<
    (u64, Seq<char>),
    Seq<char>,
> {
    match r {
        Ok((seconds, message)) => Ok((seconds, message@)),
        Err(e) => Err(e.0@),
    }
}

/// The number in base ten.
fn decimal_text(n: u64) -> (r: Vec<char>)
    ensures
        r@ == digits_of(n as nat),
{
    let mut out: Vec<char> = Vec::new();
    push_decimal(&mut out, n);
    assert(Seq::<char>::empty() + digits_of(n as nat) == digits_of(n as nat));
    out
}

/// A copy of the text.
fn copy_text(text: &Vec<char>) -> (r: Vec<char>)
    ensures
        r@ == text@,
{
    assert(text@.subrange(0, text@.len() as int) == text@);
    copy_range(text, 0, text.len())
}

/// The duration and the message that the tokens give: exactly
/// [`assembled`].
pub fn assemble(tokens: &Vec<Token>, colon_total: u64) -> (r: Result<(u64, String), ParseError>)
    ensures
        parse_outcome(r) == assembled(lexemes(tokens@), colon_total),
        r matches Ok((seconds, message)) ==> seconds > 0 && message@.len() > 0,
{
    let ghost all = lexemes(tokens@);
    let n = tokens.len();
    let mut total: u64 = colon_total;
    let mut parts: Vec<Vec<char>> = Vec::new();
    let mut i: usize = 0;
    assert(views(parts@) == Seq::<Seq<char>>::empty());
    while i < n
        invariant
            n == tokens@.len(),
            all == lexemes(tokens@),
            i <= n,
            gather(all, i as int, total as nat, views(parts@)) == gather(
                all,
                0,
                colon_total as nat,
                Seq::empty(),
            ),
        decreases n - i,
    {
        let ghost before = views(parts@);
        assert(all[i as int] == tokens@[i as int]@);
        match &tokens[i] {
            Token::Number(value) => {
                let follows = if i + 1 < n {
                    match &tokens[i + 1] {
                        Token::Unit(unit) => Some(unit),
                        Token::Number(_) => None,
                    }
                } else {
                    None
                };
                proof {
                    if i + 1 < n {
                        assert(all[i + 1] == tokens@[i + 1]@);
                    }
                }
                match follows {
                    Some(unit) => {
                        match unit_seconds_of(unit) {
                            Some(seconds) => {
                                let grown = match value.checked_mul(seconds) {
                                    Some(product) => total.checked_add(product),
                                    None => None,
                                };
                                match grown {
                                    Some(sum) => {
                                        total = sum;
                                    },
                                    None => {
                                        proof {
                                            lemma_gather_grows(
                                                all,
                                                i + 2,
                                                (total + *value * seconds) as nat,
                                                before,
                                            );
                                        }
                                        return Err(refuse("Duration too large"));
                                    },
                                }
                            },
                            None => {
                                parts.push(decimal_text(*value));
                                parts.push(copy_text(unit));
                                assert(views(parts@) == before.push(digits_of(*value as nat)).push(
                                    unit@,
                                ));
                            },
                        }
                        i += 2;
                    },
                    None => {
                        parts.push(decimal_text(*value));
                        assert(views(parts@) == before.push(digits_of(*value as nat)));
                        i += 1;
                    },
                }
            },
            Token::Unit(text) => {
                parts.push(copy_text(text));
                assert(views(parts@) == before.push(text@));
                i += 1;
            },
        }
    }
    if total == 0 {
        return Err(refuse("No valid duration found in input"));
    }
    let message = join_with_blank(&parts);
    if message.len() == 0 {
        return Err(refuse("No message found in input"));
    }
    assert(message@.subrange(0, message@.len() as int) == message@);
    Ok((total, string_of(&message, 0, message.len())))
}

/// What the words of the input from `at` on add to the seconds from times
/// written with colons and to the other words, found so far.
///
/// A word that is a time written with colons is added to the seconds; the
/// first such word that is no valid time, or with which the seconds exceed 64
/// bits, is refused. Every other word is kept, in its order.
pub open spec fn colon_scan(ws: Seq<Seq<char>>, at: int, total: u64, plain: Seq<Seq<char>>) -> Result<
    (u64, Seq<Seq<char>>),
    Seq<char>,
>
    decreases ws.len() - at,
{
    if at < 0 || at >= ws.len() {
        Ok((total, plain))
    } else if is_colon(ws[at]) {
        match colon_seconds(ws[at]) {
            Err(reason) => Err(reason),
            Ok(seconds) => if total + seconds > u64::MAX {
                Err(too_large())
            } else {
                colon_scan(ws, at + 1, (total + seconds) as u64, plain)
            },
        }
    } else {
        colon_scan(ws, at + 1, total, plain.push(ws[at]))
    }
}

/// The outcome for an input whose times written with colons add up to
/// `colon_total` seconds, whose other words are there or not (`has_plain`),
/// and whose other words, joined, trimmed and put in lowercase, are
/// `lowered`.
///
/// Times and nothing else is an input without a message. Otherwise the
/// lowered text is lexed; no token and no time is an empty input; and the
/// tokens are assembled on top of the times.
pub open spec fn parsed_lowered(colon_total: u64, has_plain: bool, lowered: Seq<char>) -> Result<
    (u64, Seq<char>),
    Seq<char>,
> {
    if !has_plain && colon_total > 0 {
        Err(no_message())
    } else {
        match lexed(lowered) {
            Err(reason) => Err(reason),
            Ok(tokens) => if tokens.len() == 0 && colon_total == 0 {
                Err(empty_input())
            } else {
                assembled(tokens, colon_total)
            },
        }
    }
}

/// The outcome for an input.
///
/// The input is cut into words at white space. Words that are times written
/// with colons are added up (`colon_scan`). The other words are joined with
/// blanks, trimmed and put in lowercase, and the result decides the rest
/// (`parsed_lowered`).
pub open spec fn parsed(input: Seq<char>) -> Result<(u64, Seq<char>), Seq<char>> {
    match colon_scan(words(input), 0, 0, Seq::empty()) {
        Err(reason) => Err(reason),
        Ok((colon_total, plain)) => parsed_lowered(
            colon_total,
            plain.len() > 0,
            lowercase_of(trimmed(joined(plain, ' '))),
        ),
    }
}

/// The outcome for an input whose other words are already joined, trimmed
/// and in lowercase: exactly [`parsed_lowered`].
pub fn parse_lowered(colon_total: u64, has_plain: bool, lowered: &Vec<char>) -> (r: Result<
    (u64, String),
    ParseError,
>)
    ensures
        parse_outcome(r) == parsed_lowered(colon_total, has_plain, lowered@),
        r matches Ok((seconds, message)) ==> seconds > 0 && message@.len() > 0,
{
    if !has_plain && colon_total > 0 {
        return Err(refuse("No message found in input"));
    }
    let tokens = match lex(lowered) {
        Ok(tokens) => tokens,
        Err(e) => {
            return Err(e);
        },
    };
    if tokens.len() == 0 && colon_total == 0 {
        return Err(refuse("Empty input"));
    }
    assemble(&tokens, colon_total)
}

/// Parses an input that mixes durations and a message.
///
/// Returns the seconds of all durations found and the message, or the reason
/// why the input is refused: exactly [`parsed`]. A result has at least one
/// second and a message that is not empty.
pub fn parse_input(input: &str) -> (r: Result<(u64, String), ParseError>)
    ensures
        parse_outcome(r) == parsed(input@),
        r matches Ok((seconds, message)) ==> seconds > 0 && message@.len() > 0,
{
    let chars = chars_of(input);
    let all = split_words(&chars);
    let ghost ws = views(all@);
    let n = all.len();
    let mut colon_total: u64 = 0;
    let mut plain: Vec<Vec<char>> = Vec::new();
    let mut i: usize = 0;
    assert(views(plain@) == Seq::<Seq<char>>::empty());
    while i < n
        invariant
            n == all@.len(),
            ws == views(all@),
            ws == words(input@),
            i <= n,
            colon_scan(ws, i as int, colon_total, views(plain@)) == colon_scan(
                ws,
                0,
                0,
                Seq::empty(),
            ),
        decreases n - i,
    {
        let word = &all[i];
        assert(ws[i as int] == word@);
        if is_colon_time_of(word) {
            let seconds = match colon_seconds_of(word) {
                Ok(seconds) => seconds,
                Err(e) => {
                    return Err(e);
                },
            };
            match colon_total.checked_add(seconds) {
                Some(sum) => {
                    colon_total = sum;
                },
                None => {
                    return Err(refuse("Duration too large"));
                },
            }
        } else {
            let ghost before = views(plain@);
            plain.push(copy_text(word));
            assert(views(plain@) == before.push(word@));
        }
        i += 1;
    }
    let joined_plain = join_with_blank(&plain);
    let kept = trim(&joined_plain);
    assert(kept@.subrange(0, kept@.len() as int) == kept@);
    let text = string_of(&kept, 0, kept.len());
    let lowered = to_lowercase(text.as_str());
    let lowered_chars = chars_of(lowered.as_str());
    parse_lowered(colon_total, plain.len() > 0, &lowered_chars)
}

} // verus!
