//! Text as sequences of characters: classes of characters, words, decimal
//! numbers.

use vstd::prelude::*;
use vstd::string::*;

verus! {

/// Whether the character is white space: one of the 25 characters that
/// Unicode gives the property `White_Space`.
pub open spec fn is_space(c: char) -> bool {
    ||| '\u{9}' <= c <= '\u{d}'
    ||| c == ' '
    ||| c == '\u{85}'
    ||| c == '\u{a0}'
    ||| c == '\u{1680}'
    ||| '\u{2000}' <= c <= '\u{200a}'
    ||| c == '\u{2028}'
    ||| c == '\u{2029}'
    ||| c == '\u{202f}'
    ||| c == '\u{205f}'
    ||| c == '\u{3000}'
}

/// Whether the character is one of the digits `0` to `9`.
pub open spec fn is_digit(c: char) -> bool {
    '0' <= c <= '9'
}

/// Whether the character is white space: see [`is_space`].
pub fn is_whitespace(c: char) -> (r: bool)
    ensures
        r == is_space(c),
{
    ('\u{9}' <= c && c <= '\u{d}') || c == ' ' || c == '\u{85}' || c == '\u{a0}' || c
        == '\u{1680}' || ('\u{2000}' <= c && c <= '\u{200a}') || c == '\u{2028}' || c
        == '\u{2029}' || c == '\u{202f}' || c == '\u{205f}' || c == '\u{3000}'
}

/// Whether the character is a digit: see [`is_digit`].
pub fn is_ascii_digit(c: char) -> (r: bool)
    ensures
        r == is_digit(c),
{
    '0' <= c && c <= '9'
}

/// The characters of a string.
pub fn chars_of(text: &str) -> (chars: Vec<char>)
    ensures
        chars@ == text@,
{
    broadcast use vstd::string::group_string_axioms;

    let mut chars: Vec<char> = Vec::new();
    for c in it: text.chars()
        invariant
            it.seq() == text@,
            chars@ == text@.take(it.index() as int),
    {
        chars.push(c);
    }
    assert(text@.take(text@.len() as int) == text@);
    chars
}

/// The string made of the characters `chars[from..to]`.
pub fn string_of(chars: &Vec<char>, from: usize, to: usize) -> (text: String)
    requires
        from <= to <= chars@.len(),
    ensures
        text@ == chars@.subrange(from as int, to as int),
{
    let mut text = String::new();
    let mut i: usize = from;
    while i < to
        invariant
            from <= i <= to <= chars@.len(),
            text@ == chars@.subrange(from as int, i as int),
        decreases to - i,
    {
        text.push(chars[i]);
        assert(chars@.subrange(from as int, i + 1) == chars@.subrange(from as int, i as int).push(
            chars@[i as int],
        ));
        i += 1;
    }
    text
}

/// Whether `chars[from..to]` is the text `word`.
pub fn range_is(chars: &Vec<char>, from: usize, to: usize, word: &str) -> (r: bool)
    requires
        from <= to <= chars@.len(),
    ensures
        r == (chars@.subrange(from as int, to as int) == word@),
{
    broadcast use vstd::string::group_string_axioms;

    let ghost part = chars@.subrange(from as int, to as int);
    let mut i: usize = from;
    for c in it: word.chars()
        invariant
            it.seq() == word@,
            from <= to <= chars@.len(),
            part == chars@.subrange(from as int, to as int),
            i == from + it.index(),
            i <= to,
            part.take(it.index() as int) == word@.take(it.index() as int),
    {
        if i >= to || chars[i] != c {
            proof {
                let k = it.index() as int;
                if i < to {
                    assert(part[k] != word@[k]);
                } else {
                    assert(part.len() == k);
                    assert(word@.len() > k);
                }
            }
            return false;
        }
        proof {
            let k = it.index() as int;
            assert(part[k] == word@[k]);
            assert(part.take(k + 1) == part.take(k).push(part[k]));
            assert(word@.take(k + 1) == word@.take(k).push(word@[k]));
        }
        i += 1;
    }
    proof {
        assert(word@.take(word@.len() as int) == word@);
        if i == to {
            assert(part.take(part.len() as int) == part);
        }
    }
    i == to
}

/// A kind of run of characters.
#[derive(Debug, Clone, Copy, PartialEq, Eq, Structural)]
pub enum Run {
    /// White space.
    Spaces,
    /// Anything but white space.
    Word,
    /// Digits.
    Digits,
    /// Anything but white space and digits.
    Text,
    /// Anything but a colon.
    Field,
}

impl Run {
    /// Whether the character belongs in a run of this kind.
    pub open spec fn holds(self, c: char) -> bool {
        match self {
            Run::Spaces => is_space(c),
            Run::Word => !is_space(c),
            Run::Digits => is_digit(c),
            Run::Text => !is_space(c) && !is_digit(c),
            Run::Field => c != ':',
        }
    }

    /// Whether the character belongs in a run of this kind.
    pub fn admits(self, c: char) -> (r: bool)
        ensures
            r == self.holds(c),
    {
        match self {
            Run::Spaces => is_whitespace(c),
            Run::Word => !is_whitespace(c),
            Run::Digits => is_ascii_digit(c),
            Run::Text => !is_whitespace(c) && !is_ascii_digit(c),
            Run::Field => c != ':',
        }
    }
}

/// Where the run of the given kind that starts at `from` ends: the first
/// index at or after `from` whose character is not of the kind, or the length.
pub open spec fn run_end(s: Seq<char>, from: int, kind: Run) -> int
    decreases s.len() - from,
{
    if 0 <= from < s.len() && kind.holds(s[from]) {
        run_end(s, from + 1, kind)
    } else {
        from
    }
}

/// `run_end` delimits a run: every character before it is of the kind, and
/// the character at it, if there is one, is not.
pub proof fn lemma_run_end(s: Seq<char>, from: int, kind: Run)
    requires
        0 <= from <= s.len(),
    ensures
        from <= run_end(s, from, kind) <= s.len(),
        forall|k: int| from <= k < run_end(s, from, kind) ==> kind.holds(#[trigger] s[k]),
        run_end(s, from, kind) < s.len() ==> !kind.holds(s[run_end(s, from, kind)]),
        from < s.len() && kind.holds(s[from]) ==> from < run_end(s, from, kind),
    decreases s.len() - from,
{
    if from < s.len() && kind.holds(s[from]) {
        lemma_run_end(s, from + 1, kind);
    }
}

/// Where the run of white space that ends just before `to` starts.
pub open spec fn space_start(s: Seq<char>, to: int) -> int
    decreases to,
{
    if 0 < to <= s.len() && is_space(s[to - 1]) {
        space_start(s, to - 1)
    } else {
        to
    }
}

/// The text without the white space at its start and at its end.
pub open spec fn trimmed(s: Seq<char>) -> Seq<char> {
    let from = run_end(s, 0, Run::Spaces);
    let to = space_start(s, s.len() as int);
    if from < to {
        s.subrange(from, to)
    } else {
        Seq::empty()
    }
}

/// The words of the text from `from` on: its maximal runs of characters that
/// are not white space, in their order.
///
/// At white space the run at `from` is empty, and the search goes on one
/// character further.
pub open spec fn words_from(s: Seq<char>, from: int) -> Seq<Seq<char>>
    decreases s.len() - from,
{
    if from < 0 || from >= s.len() {
        Seq::empty()
    } else {
        let to = run_end(s, from, Run::Word);
        if from < to <= s.len() {
            seq![s.subrange(from, to)] + words_from(s, to)
        } else {
            words_from(s, from + 1)
        }
    }
}

/// The words of the text: its maximal runs of characters that are not white
/// space, in their order. A text of white space alone has none.
pub open spec fn words(s: Seq<char>) -> Seq<Seq<char>> {
    words_from(s, 0)
}

/// The texts joined into one, with `sep` between each two.
pub open spec fn joined(parts: Seq<Seq<char>>, sep: char) -> Seq<char>
    decreases parts.len(),
{
    if parts.len() == 0 {
        Seq::empty()
    } else if parts.len() == 1 {
        parts[0]
    } else {
        joined(parts.drop_last(), sep).push(sep) + parts.last()
    }
}

/// The number that a digit stands for.
pub open spec fn digit_value(c: char) -> nat {
    (c as int - '0' as int) as nat
}

/// The number that a sequence of digits stands for in base ten; 0 for none.
pub open spec fn digits_value(s: Seq<char>) -> nat
    decreases s.len(),
{
    if s.len() == 0 {
        0
    } else {
        digits_value(s.drop_last()) * 10 + digit_value(s.last())
    }
}

/// Whether every character is a digit.
pub open spec fn all_digits(s: Seq<char>) -> bool {
    forall|i: int| 0 <= i < s.len() ==> is_digit(#[trigger] s[i])
}

/// The number that the text denotes: an optional `+` and then one or more
/// digits, read in base ten. Any other text denotes none.
pub open spec fn decimal(s: Seq<char>) -> Option<nat> {
    let digits = if s.len() > 0 && s[0] == '+' {
        s.skip(1)
    } else {
        s
    };
    if digits.len() > 0 && all_digits(digits) {
        Some(digits_value(digits))
    } else {
        None
    }
}

/// The digit for a number below ten.
pub open spec fn digit_char(d: nat) -> char
    recommends
        d < 10,
{
    ('0' as int + d) as char
}

/// The number in base ten, without leading zeros.
pub open spec fn digits_of(n: nat) -> Seq<char>
    decreases n,
{
    if n < 10 {
        seq![digit_char(n)]
    } else {
        digits_of(n / 10).push(digit_char(n % 10))
    }
}

/// A number read from more digits is no smaller.
pub proof fn lemma_digits_value_grows(s: Seq<char>, k: int)
    requires
        0 <= k <= s.len(),
    ensures
        digits_value(s.take(k)) <= digits_value(s),
    decreases s.len(),
{
    if k < s.len() {
        let front = s.drop_last();
        lemma_digits_value_grows(front, k);
        assert(front.take(k) == s.take(k));
        assert(digits_value(front) <= digits_value(front) * 10) by (nonlinear_arith);
    } else {
        assert(s.take(k) == s);
    }
}

/// Where the run of the given kind that starts at `from` ends: see
/// [`run_end`].
pub fn scan_run(chars: &Vec<char>, from: usize, kind: Run) -> (to: usize)
    requires
        from <= chars@.len(),
    ensures
        to == run_end(chars@, from as int, kind),
        from <= to <= chars@.len(),
{
    let mut to: usize = from;
    while to < chars.len() && kind.admits(chars[to])
        invariant
            from <= to <= chars@.len(),
            run_end(chars@, to as int, kind) == run_end(chars@, from as int, kind),
        decreases chars@.len() - to,
    {
        to += 1;
    }
    to
}

/// Where the run of white space that ends just before `to` starts: see
/// [`space_start`].
pub fn scan_back_spaces(chars: &Vec<char>, to: usize) -> (from: usize)
    requires
        to <= chars@.len(),
    ensures
        from == space_start(chars@, to as int),
        from <= to,
{
    let mut from: usize = to;
    while from > 0 && is_whitespace(chars[from - 1])
        invariant
            from <= to <= chars@.len(),
            space_start(chars@, from as int) == space_start(chars@, to as int),
        decreases from,
    {
        from -= 1;
    }
    from
}

/// A copy of `chars[from..to]`.
pub fn copy_range(chars: &Vec<char>, from: usize, to: usize) -> (part: Vec<char>)
    requires
        from <= to <= chars@.len(),
    ensures
        part@ == chars@.subrange(from as int, to as int),
{
    let mut part: Vec<char> = Vec::new();
    let mut i: usize = from;
    while i < to
        invariant
            from <= i <= to <= chars@.len(),
            part@ == chars@.subrange(from as int, i as int),
        decreases to - i,
    {
        part.push(chars[i]);
        assert(chars@.subrange(from as int, i + 1) == chars@.subrange(from as int, i as int).push(
            chars@[i as int],
        ));
        i += 1;
    }
    part
}

/// The text without the white space at its start and at its end: see
/// [`trimmed`].
pub fn trim(chars: &Vec<char>) -> (r: Vec<char>)
    ensures
        r@ == trimmed(chars@),
{
    let from = scan_run(chars, 0, Run::Spaces);
    let to = scan_back_spaces(chars, chars.len());
    if from < to {
        copy_range(chars, from, to)
    } else {
        Vec::new()
    }
}

/// The views of the texts.
pub open spec fn views(parts: Seq<Vec<char>>) -> Seq<Seq<char>> {
    parts.map_values(|part: Vec<char>| part@)
}

/// The words of the text: see [`words`].
pub fn split_words(chars: &Vec<char>) -> (r: Vec<Vec<char>>)
    ensures
        views(r@) == words(chars@),
{
    let mut out: Vec<Vec<char>> = Vec::new();
    let mut i: usize = 0;
    assert(views(out@) == Seq::<Seq<char>>::empty());
    while i < chars.len()
        invariant
            i <= chars@.len(),
            views(out@) + words_from(chars@, i as int) == words(chars@),
        decreases chars@.len() - i,
    {
        let to = scan_run(chars, i, Run::Word);
        if i < to {
            let word = copy_range(chars, i, to);
            let ghost before = views(out@);
            out.push(word);
            assert(views(out@) == before.push(chars@.subrange(i as int, to as int)));
            assert(before.push(chars@.subrange(i as int, to as int)) + words_from(
                chars@,
                to as int,
            ) == before + (seq![chars@.subrange(i as int, to as int)] + words_from(
                chars@,
                to as int,
            )));
            i = to;
        } else {
            i += 1;
        }
    }
    assert(words_from(chars@, i as int) == Seq::<Seq<char>>::empty());
    out
}

/// Appends `part` to `out`.
pub fn append_chars(out: &mut Vec<char>, part: &Vec<char>)
    ensures
        final(out)@ == old(out)@ + part@,
{
    let mut i: usize = 0;
    while i < part.len()
        invariant
            i <= part@.len(),
            out@ == old(out)@ + part@.take(i as int),
        decreases part@.len() - i,
    {
        out.push(part[i]);
        assert(part@.take(i + 1) == part@.take(i as int).push(part@[i as int]));
        i += 1;
    }
    assert(part@.take(i as int) == part@);
}

/// The texts joined into one, with a blank between each two: see
/// [`joined`].
pub fn join_with_blank(parts: &Vec<Vec<char>>) -> (r: Vec<char>)
    ensures
        r@ == joined(views(parts@), ' '),
{
    let mut out: Vec<char> = Vec::new();
    let mut i: usize = 0;
    let ghost all = views(parts@);
    while i < parts.len()
        invariant
            i <= parts@.len(),
            all == views(parts@),
            out@ == joined(all.take(i as int), ' '),
        decreases parts@.len() - i,
    {
        if i > 0 {
            out.push(' ');
        }
        append_chars(&mut out, &parts[i]);
        proof {
            let next = all.take(i + 1);
            assert(next.drop_last() == all.take(i as int));
            assert(next.last() == parts@[i as int]@);
        }
        i += 1;
    }
    assert(all.take(i as int) == all);
    out
}

/// The number that `chars[from..to]` denotes, if it denotes one that fits
/// in 64 bits: see [`decimal`].
pub fn parse_decimal(chars: &Vec<char>, from: usize, to: usize) -> (r: Option<u64>)
    requires
        from <= to <= chars@.len(),
    ensures
        r == match decimal(chars@.subrange(from as int, to as int)) {
            Some(n) => if n <= u64::MAX {
                Some(n as u64)
            } else {
                None
            },
            None => None,
        },
{
    let ghost text = chars@.subrange(from as int, to as int);
    let start: usize = if from < to && chars[from] == '+' {
        from + 1
    } else {
        from
    };
    let ghost digits = chars@.subrange(start as int, to as int);
    assert(digits == if text.len() > 0 && text[0] == '+' {
        text.skip(1)
    } else {
        text
    });
    if start == to {
        return None;
    }
    let mut value: u64 = 0;
    let mut i: usize = start;
    assert(digits.take(0) == Seq::<char>::empty());
    while i < to
        invariant
            from <= start <= i <= to <= chars@.len(),
            start < to,
            text == chars@.subrange(from as int, to as int),
            digits == chars@.subrange(start as int, to as int),
            digits == if text.len() > 0 && text[0] == '+' {
                text.skip(1)
            } else {
                text
            },
            all_digits(digits.take(i - start)),
            value == digits_value(digits.take(i - start)),
        decreases to - i,
    {
        let c = chars[i];
        let ghost k = i - start;
        assert(digits[k] == c);
        if !is_ascii_digit(c) {
            return None;
        }
        let d: u64 = match c {
            '0' => 0,
            '1' => 1,
            '2' => 2,
            '3' => 3,
            '4' => 4,
            '5' => 5,
            '6' => 6,
            '7' => 7,
            '8' => 8,
            _ => 9,
        };
        assert(d == digit_value(c));
        proof {
            assert(digits.take(k + 1).drop_last() == digits.take(k));
            assert(digits.take(k + 1).last() == c);
            assert forall|j: int| 0 <= j < k + 1 implies is_digit(#[trigger] digits.take(k + 1)[j]) by {
                if j < k {
                    assert(digits.take(k)[j] == digits.take(k + 1)[j]);
                }
            }
        }
        let grown = match value.checked_mul(10) {
            Some(tenfold) => tenfold.checked_add(d),
            None => None,
        };
        match grown {
            Some(next) => {
                value = next;
            },
            None => {
                // The digits read so far already exceed 64 bits; whatever
                // follows, the text denotes no number that fits, or none.
                let rest_ok = all_digits_in(chars, i + 1, to);
                proof {
                    if rest_ok {
                        assert forall|j: int| 0 <= j < digits.len() implies is_digit(
                            #[trigger] digits[j],
                        ) by {
                            if j <= k {
                                assert(digits.take(k + 1)[j] == digits[j]);
                            } else {
                                assert(digits[j] == chars@[start + j]);
                            }
                        }
                        lemma_digits_value_grows(digits, k + 1);
                    } else {
                        let j = choose|j: int| i + 1 <= j < to && !is_digit(chars@[j]);
                        assert(digits[j - start] == chars@[j]);
                    }
                }
                return None;
            },
        }
        i += 1;
    }
    assert(digits.take(i - start) == digits);
    Some(value)
}

/// Whether every character of `chars[from..to]` is a digit.
pub fn all_digits_in(chars: &Vec<char>, from: usize, to: usize) -> (r: bool)
    requires
        from <= to <= chars@.len(),
    ensures
        r <==> forall|j: int| from <= j < to ==> is_digit(#[trigger] chars@[j]),
        !r ==> exists|j: int| from <= j < to && !is_digit(#[trigger] chars@[j]),
{
    let mut i: usize = from;
    while i < to
        invariant
            from <= i <= to <= chars@.len(),
            forall|j: int| from <= j < i ==> is_digit(#[trigger] chars@[j]),
        decreases to - i,
    {
        if !is_ascii_digit(chars[i]) {
            return false;
        }
        i += 1;
    }
    true
}

/// Appends the number in base ten to `out`: see [`digits_of`].
pub fn push_decimal(out: &mut Vec<char>, n: u64)
    ensures
        final(out)@ == old(out)@ + digits_of(n as nat),
    decreases n,
{
    if n >= 10 {
        push_decimal(out, n / 10);
    }
    let c = match n % 10 {
        0 => '0',
        1 => '1',
        2 => '2',
        3 => '3',
        4 => '4',
        5 => '5',
        6 => '6',
        7 => '7',
        8 => '8',
        _ => '9',
    };
    assert(c == digit_char((n % 10) as nat));
    out.push(c);
    proof {
        if n >= 10 {
            assert(old(out)@ + digits_of((n / 10) as nat).push(c) == (old(out)@ + digits_of(
                (n / 10) as nat,
            )).push(c));
        } else {
            assert(old(out)@ + seq![c] == old(out)@.push(c));
        }
    }
}

} // verus!
