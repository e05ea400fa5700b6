//! Slideshow intervals in the `HH:MM:SS` text form used by the editor.
use vstd::prelude::*;

use crate::text::{chars_of, push_char};

verus! {

/// Why a piece of interval text was refused.
#[derive(Debug, Clone, Copy, PartialEq, Eq, Structural)]
pub enum IntervalError {
    /// The text does not have exactly three `:`-separated fields.
    FieldCount,
    /// A field is not two bytes long.
    FieldWidth,
    /// A field is not a number.
    NotNumeric,
    /// Minutes or seconds above 59.
    OutOfRange,
}

impl IntervalError {
    /// The message shown next to the interval field.
    pub fn message(&self) -> (r: &'static str)
        ensures
            r@ == match self {
                IntervalError::FieldCount => "Use HH:MM:SS"@,
                IntervalError::FieldWidth => "Use two-digit fields"@,
                IntervalError::NotNumeric => "Interval fields must be numeric"@,
                IntervalError::OutOfRange => "Minutes/seconds must be <= 59"@,
            },
    {
        match self {
            IntervalError::FieldCount => "Use HH:MM:SS",
            IntervalError::FieldWidth => "Use two-digit fields",
            IntervalError::NotNumeric => "Interval fields must be numeric",
            IntervalError::OutOfRange => "Minutes/seconds must be <= 59",
        }
    }
}

/// The fields of `s` separated by `:`; an empty text has one empty field.
pub open spec fn split_fields(s: Seq<char>) -> Seq<Seq<char>>
    decreases s.len(),
{
    if s.len() == 0 {
        seq![Seq::<char>::empty()]
    } else {
        let rest = split_fields(s.drop_last());
        if s.last() == ':' {
            rest.push(Seq::<char>::empty())
        } else {
            rest.update(rest.len() - 1, rest.last().push(s.last()))
        }
    }
}

pub open spec fn is_digit(c: char) -> bool {
    '0' <= c <= '9'
}

pub open spec fn digit_value(c: char) -> nat {
    (c as u32 - '0' as u32) as nat
}

/// The UTF-8 encoding of `f` is exactly two bytes long.
pub open spec fn two_bytes(f: Seq<char>) -> bool {
    ||| f.len() == 2 && (f[0] as u32) < 0x80 && (f[1] as u32) < 0x80
    ||| f.len() == 1 && 0x80 <= (f[0] as u32) < 0x800
}

/// The value of one field as an unsigned decimal number (an optional `+`
/// sign, then digits).
pub open spec fn field_value(f: Seq<char>) -> Result<nat, IntervalError> {
    if !two_bytes(f) {
        Err(IntervalError::FieldWidth)
    } else if f.len() == 2 && is_digit(f[0]) && is_digit(f[1]) {
        Ok(10 * digit_value(f[0]) + digit_value(f[1]))
    } else if f.len() == 2 && f[0] == '+' && is_digit(f[1]) {
        Ok(digit_value(f[1]))
    } else {
        Err(IntervalError::NotNumeric)
    }
}

pub open spec fn at_least_one(n: nat) -> nat {
    if n < 1 {
        1
    } else {
        n
    }
}

/// What `HH:MM:SS` text means, in seconds (at least one).
pub open spec fn interval_of(s: Seq<char>) -> Result<nat, IntervalError> {
    let fs = split_fields(s);
    if fs.len() != 3 {
        Err(IntervalError::FieldCount)
    } else {
        match field_value(fs[0]) {
            Err(e) => Err(e),
            Ok(h) => match field_value(fs[1]) {
                Err(e) => Err(e),
                Ok(m) => if m > 59 {
                    Err(IntervalError::OutOfRange)
                } else {
                    match field_value(fs[2]) {
                        Err(e) => Err(e),
                        Ok(sec) => if sec > 59 {
                            Err(IntervalError::OutOfRange)
                        } else {
                            Ok(at_least_one(h * 3600 + m * 60 + sec))
                        },
                    }
                },
            },
        }
    }
}

pub open spec fn digit_char(d: nat) -> char {
    seq!['0', '1', '2', '3', '4', '5', '6', '7', '8', '9'][d as int]
}

/// `n` (below 100) as two decimal digits.
pub open spec fn two_digits(n: nat) -> Seq<char> {
    seq![digit_char(n / 10), digit_char(n % 10)]
}

/// `seconds` as `HH:MM:SS`, hours capped at 99.
pub open spec fn hms_text(seconds: nat) -> Seq<char> {
    let h = seconds / 3600;
    let hours = if h > 99 {
        99
    } else {
        h
    };
    two_digits(hours) + seq![':'] + two_digits((seconds % 3600) / 60) + seq![':']
        + two_digits(seconds % 60)
}

pub(crate) fn digit_to_char(d: u64) -> (c: char)
    requires
        d < 10,
    ensures
        c == digit_char(d as nat),
{
    match d {
        0 => '0',
        1 => '1',
        2 => '2',
        3 => '3',
        4 => '4',
        5 => '5',
        6 => '6',
        7 => '7',
        8 => '8',
        _ => '9',
    }
}

fn push_two_digits(out: &mut String, n: u64)
    requires
        n < 100,
    ensures
        final(out)@ == old(out)@ + two_digits(n as nat),
{
    push_char(out, digit_to_char(n / 10));
    push_char(out, digit_to_char(n % 10));
}

/// Converts a slideshow interval to `HH:MM:SS` for display.
pub fn format_interval(seconds: u64) -> (r: String)
    ensures
        r@ == hms_text(seconds as nat),
{
    let hours = seconds / 3600;
    let minutes = (seconds % 3600) / 60;
    let secs = seconds % 60;
    let mut out = String::new();
    push_two_digits(&mut out, if hours > 99 { 99 } else { hours });
    push_char(&mut out, ':');
    push_two_digits(&mut out, minutes);
    push_char(&mut out, ':');
    push_two_digits(&mut out, secs);
    assert(out@ =~= hms_text(seconds as nat));
    out
}

fn split_on_colons(cs: &Vec<char>) -> (r: Vec<Vec<char>>)
    ensures
        r@.len() == split_fields(cs@).len(),
        forall|k: int| 0 <= k < r@.len() ==> #[trigger] r@[k]@ == split_fields(cs@)[k],
{
    let mut done: Vec<Vec<char>> = Vec::new();
    let mut cur: Vec<char> = Vec::new();
    let mut i: usize = 0;
    while i < cs.len()
        invariant
            i <= cs@.len(),
            done@.len() + 1 == split_fields(cs@.subrange(0, i as int)).len(),
            forall|k: int|
                0 <= k < done@.len() ==> #[trigger] done@[k]@ == split_fields(
                    cs@.subrange(0, i as int),
                )[k],
            cur@ == split_fields(cs@.subrange(0, i as int)).last(),
        decreases cs@.len() - i,
    {
        let c = cs[i];
        proof {
            let pre = cs@.subrange(0, i as int);
            let next = cs@.subrange(0, i + 1);
            assert(next.drop_last() =~= pre);
            assert(next.last() == c);
        }
        if c == ':' {
            done.push(cur);
            cur = Vec::new();
        } else {
            cur.push(c);
        }
        i = i + 1;
    }
    done.push(cur);
    assert(cs@.subrange(0, cs@.len() as int) =~= cs@);
    done
}

fn field_number(f: &Vec<char>) -> (r: Result<u64, IntervalError>)
    ensures
        match field_value(f@) {
            Ok(v) => r == Ok::<u64, IntervalError>(v as u64),
            Err(e) => r == Err::<u64, IntervalError>(e),
        },
{
    let wide = f.len() == 2 && (f[0] as u32) < 0x80 && (f[1] as u32) < 0x80;
    let narrow = f.len() == 1 && 0x80 <= (f[0] as u32) && (f[0] as u32) < 0x800;
    if !wide && !narrow {
        return Err(IntervalError::FieldWidth);
    }
    if f.len() == 2 && '0' <= f[1] && f[1] <= '9' {
        let low = (f[1] as u32 - '0' as u32) as u64;
        if '0' <= f[0] && f[0] <= '9' {
            let high = (f[0] as u32 - '0' as u32) as u64;
            return Ok(10 * high + low);
        }
        if f[0] == '+' {
            return Ok(low);
        }
    }
    Err(IntervalError::NotNumeric)
}

/// Parses `HH:MM:SS` into seconds; the result is at least one second.
pub fn parse_interval(value: &str) -> (r: Result<u64, IntervalError>)
    ensures
        match interval_of(value@) {
            Ok(v) => r == Ok::<u64, IntervalError>(v as u64),
            Err(e) => r == Err::<u64, IntervalError>(e),
        },
{
    let cs = chars_of(value);
    let parts = split_on_colons(&cs);
    if parts.len() != 3 {
        return Err(IntervalError::FieldCount);
    }
    let hours = match field_number(&parts[0]) {
        Ok(v) => v,
        Err(e) => return Err(e),
    };
    let minutes = match field_number(&parts[1]) {
        Ok(v) => v,
        Err(e) => return Err(e),
    };
    if minutes > 59 {
        return Err(IntervalError::OutOfRange);
    }
    let secs = match field_number(&parts[2]) {
        Ok(v) => v,
        Err(e) => return Err(e),
    };
    if secs > 59 {
        return Err(IntervalError::OutOfRange);
    }
    let total = hours * 3600 + minutes * 60 + secs;
    if total < 1 {
        Ok(1)
    } else {
        Ok(total)
    }
}

pub open spec fn has_no_colon(s: Seq<char>) -> bool {
    forall|i: int| 0 <= i < s.len() ==> s[i] != ':'
}

proof fn lemma_split_colon(x: Seq<char>)
    ensures
        split_fields(x + seq![':']) == split_fields(x).push(Seq::<char>::empty()),
{
    assert((x + seq![':']).drop_last() =~= x);
}

proof fn lemma_split_fields_nonempty(x: Seq<char>)
    ensures
        split_fields(x).len() >= 1,
    decreases x.len(),
{
    if x.len() > 0 {
        lemma_split_fields_nonempty(x.drop_last());
    }
}

proof fn lemma_split_plain(x: Seq<char>, y: Seq<char>)
    requires
        has_no_colon(y),
    ensures
        split_fields(x + y) == split_fields(x).update(
            split_fields(x).len() - 1,
            split_fields(x).last() + y,
        ),
    decreases y.len(),
{
    lemma_split_fields_nonempty(x);
    if y.len() == 0 {
        assert(x + y =~= x);
        assert(split_fields(x).last() + y =~= split_fields(x).last());
        assert(split_fields(x).update(split_fields(x).len() - 1, split_fields(x).last())
            =~= split_fields(x));
    } else {
        let y0 = y.drop_last();
        assert(has_no_colon(y0));
        lemma_split_plain(x, y0);
        assert((x + y).drop_last() =~= x + y0);
        assert((x + y).last() == y.last());
        assert(y[y.len() - 1] != ':');
        let f = split_fields(x);
        let rest = split_fields(x + y0);
        assert(rest.len() == f.len());
        assert(rest.last() == f.last() + y0);
        assert((f.last() + y0).push(y.last()) =~= f.last() + y);
        assert(split_fields(x + y) == rest.update(rest.len() - 1, rest.last().push(y.last())));
        assert(split_fields(x + y) =~= split_fields(x).update(
            split_fields(x).len() - 1,
            split_fields(x).last() + y,
        ));
    }
}

proof fn lemma_digit(d: nat)
    requires
        d < 10,
    ensures
        is_digit(digit_char(d)),
        digit_value(digit_char(d)) == d,
        (digit_char(d) as u32) < 0x80,
        digit_char(d) != ':',
{
    if d == 0 {
    } else if d == 1 {
    } else if d == 2 {
    } else if d == 3 {
    } else if d == 4 {
    } else if d == 5 {
    } else if d == 6 {
    } else if d == 7 {
    } else if d == 8 {
    } else {
    }
}

proof fn lemma_two_digits(n: nat)
    requires
        n < 100,
    ensures
        field_value(two_digits(n)) == Ok::<nat, IntervalError>(n),
        has_no_colon(two_digits(n)),
{
    lemma_digit(n / 10);
    lemma_digit(n % 10);
}

/// Formatting an interval of less than 100 hours and parsing the text back
/// gives the interval, raised to at least one second.
pub proof fn lemma_format_parse_round_trip(seconds: nat)
    requires
        seconds < 360000,
    ensures
        interval_of(hms_text(seconds)) == Ok::<nat, IntervalError>(at_least_one(seconds)),
{
    let h = seconds / 3600;
    let m = (seconds % 3600) / 60;
    let sec = seconds % 60;
    vstd::arithmetic::div_mod::lemma_fundamental_div_mod(seconds as int, 3600);
    vstd::arithmetic::div_mod::lemma_fundamental_div_mod(seconds as int % 3600, 60);
    vstd::arithmetic::div_mod::lemma_mod_mod(seconds as int, 60, 60);
    assert(h < 100);
    lemma_two_digits(h);
    lemma_two_digits(m);
    lemma_two_digits(sec);
    let a = two_digits(h);
    let b = two_digits(m);
    let c = two_digits(sec);
    let e = Seq::<char>::empty();
    assert(split_fields(e) == seq![e]);
    lemma_split_plain(e, a);
    assert(e + a =~= a);
    assert(split_fields(a) =~= seq![a]);
    lemma_split_colon(a);
    lemma_split_plain(a + seq![':'], b);
    assert(split_fields(a + seq![':'] + b) =~= seq![a, b]);
    lemma_split_colon(a + seq![':'] + b);
    lemma_split_plain(a + seq![':'] + b + seq![':'], c);
    assert(split_fields(a + seq![':'] + b + seq![':'] + c) =~= seq![a, b, c]);
    assert(hms_text(seconds) == a + seq![':'] + b + seq![':'] + c);
    assert(h * 3600 + m * 60 + sec == seconds);
}

} // verus!
