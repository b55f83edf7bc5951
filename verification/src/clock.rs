//! Wall-clock timestamps: a plain-value calendar time with millisecond
//! precision, its text renderings, and the one call that reads the clock.

use vstd::prelude::*;
use chrono::Datelike;
use chrono::Timelike;

verus! {

// ---------------------------------------------------------------------------
// Decimal digits
// ---------------------------------------------------------------------------
/// The decimal digit for a value in `0..10`.
pub open spec fn dec_digit_char(n: int) -> char {
    if n == 0 {
        '0'
    } else if n == 1 {
        '1'
    } else if n == 2 {
        '2'
    } else if n == 3 {
        '3'
    } else if n == 4 {
        '4'
    } else if n == 5 {
        '5'
    } else if n == 6 {
        '6'
    } else if n == 7 {
        '7'
    } else if n == 8 {
        '8'
    } else {
        '9'
    }
}

/// Shortest decimal representation of `n` (one digit for zero).
pub open spec fn dec_rep(n: nat) -> Seq<char>
    decreases n,
{
    if n < 10 {
        seq![dec_digit_char(n as int)]
    } else {
        dec_rep(n / 10).push(dec_digit_char((n % 10) as int))
    }
}

/// `n` as exactly two digits (for `n < 100`).
pub open spec fn two_digits(n: int) -> Seq<char> {
    seq![dec_digit_char(n / 10), dec_digit_char(n % 10)]
}

/// `n` as exactly three digits (for `n < 1000`).
pub open spec fn three_digits(n: int) -> Seq<char> {
    seq![dec_digit_char(n / 100), dec_digit_char((n / 10) % 10), dec_digit_char(n % 10)]
}

/// `n` as exactly four digits (for `n < 10000`).
pub open spec fn four_digits(n: int) -> Seq<char> {
    seq![
        dec_digit_char(n / 1000),
        dec_digit_char((n / 100) % 10),
        dec_digit_char((n / 10) % 10),
        dec_digit_char(n % 10),
    ]
}

fn dec_digit(n: u32) -> (c: char)
    requires
        n < 10,
    ensures
        c == dec_digit_char(n as int),
{
    if n == 0 {
        '0'
    } else if n == 1 {
        '1'
    } else if n == 2 {
        '2'
    } else if n == 3 {
        '3'
    } else if n == 4 {
        '4'
    } else if n == 5 {
        '5'
    } else if n == 6 {
        '6'
    } else if n == 7 {
        '7'
    } else if n == 8 {
        '8'
    } else {
        '9'
    }
}

/// Append the shortest decimal representation of `n`.
pub fn push_dec_rep(out: &mut Vec<char>, n: u32)
    ensures
        final(out)@ == old(out)@ + dec_rep(n as nat),
    decreases n,
{
    if n < 10 {
        out.push(dec_digit(n));
        assert(out@ =~= old(out)@ + dec_rep(n as nat));
    } else {
        push_dec_rep(out, n / 10);
        out.push(dec_digit(n % 10));
        assert(out@ =~= old(out)@ + dec_rep(n as nat));
    }
}

fn push_two_digits(out: &mut Vec<char>, n: u32)
    requires
        n < 100,
    ensures
        final(out)@ == old(out)@ + two_digits(n as int),
{
    out.push(dec_digit(n / 10));
    out.push(dec_digit(n % 10));
    assert(out@ =~= old(out)@ + two_digits(n as int));
}

fn push_three_digits(out: &mut Vec<char>, n: u32)
    requires
        n < 1000,
    ensures
        final(out)@ == old(out)@ + three_digits(n as int),
{
    out.push(dec_digit(n / 100));
    out.push(dec_digit((n / 10) % 10));
    out.push(dec_digit(n % 10));
    assert(out@ =~= old(out)@ + three_digits(n as int));
}

fn push_four_digits(out: &mut Vec<char>, n: u32)
    requires
        n < 10000,
    ensures
        final(out)@ == old(out)@ + four_digits(n as int),
{
    out.push(dec_digit(n / 1000));
    out.push(dec_digit((n / 100) % 10));
    out.push(dec_digit((n / 10) % 10));
    out.push(dec_digit(n % 10));
    assert(out@ =~= old(out)@ + four_digits(n as int));
}

/// `n` in decimal as a `String`.
pub fn format_u32(n: u32) -> (s: String)
    ensures
        s@ == dec_rep(n as nat),
{
    let mut out: Vec<char> = Vec::new();
    push_dec_rep(&mut out, n);
    crate::codec::chars_to_string(&out)
}

// ---------------------------------------------------------------------------
// Timestamps
// ---------------------------------------------------------------------------
/// A calendar time with millisecond precision, held as plain values.
#[derive(Debug, Clone, Copy, PartialEq, Eq, Structural)]
pub struct Timestamp {
    pub year: u32,
    pub month: u8,
    pub day: u8,
    pub hour: u8,
    pub minute: u8,
    pub second: u8,
    pub millis: u16,
}

impl Timestamp {
    /// Field ranges every timestamp handed to the formatters satisfies.
    pub open spec fn wf(&self) -> bool {
        &&& self.year <= 9999
        &&& 1 <= self.month <= 12
        &&& 1 <= self.day <= 31
        &&& self.hour < 24
        &&& self.minute < 60
        &&& self.second < 60
        &&& self.millis <= 999
    }
}

/// `YYYY-MM-DD HH:MM:SS`.
pub open spec fn spec_datetime(ts: Timestamp) -> Seq<char> {
    four_digits(ts.year as int) + seq!['-'] + two_digits(ts.month as int) + seq!['-'] + two_digits(
        ts.day as int,
    ) + seq![' '] + two_digits(ts.hour as int) + seq![':'] + two_digits(ts.minute as int)
        + seq![':'] + two_digits(ts.second as int)
}

/// `YYYY-MM-DD HH:MM:SS.mmm`.
pub open spec fn spec_datetime_millis(ts: Timestamp) -> Seq<char> {
    spec_datetime(ts) + seq!['.'] + three_digits(ts.millis as int)
}

/// `YYYYMMDD_HHMMSS`, the form used in generated file names.
pub open spec fn spec_compact(ts: Timestamp) -> Seq<char> {
    four_digits(ts.year as int) + two_digits(ts.month as int) + two_digits(ts.day as int)
        + seq!['_'] + two_digits(ts.hour as int) + two_digits(ts.minute as int) + two_digits(
        ts.second as int,
    )
}

fn push_datetime(out: &mut Vec<char>, ts: &Timestamp)
    requires
        ts.wf(),
    ensures
        final(out)@ == old(out)@ + spec_datetime(*ts),
{
    push_four_digits(out, ts.year);
    out.push('-');
    push_two_digits(out, ts.month as u32);
    out.push('-');
    push_two_digits(out, ts.day as u32);
    out.push(' ');
    push_two_digits(out, ts.hour as u32);
    out.push(':');
    push_two_digits(out, ts.minute as u32);
    out.push(':');
    push_two_digits(out, ts.second as u32);
    assert(out@ =~= old(out)@ + spec_datetime(*ts));
}

/// `YYYY-MM-DD HH:MM:SS` as a `String`.
pub fn format_datetime(ts: &Timestamp) -> (s: String)
    requires
        ts.wf(),
    ensures
        s@ == spec_datetime(*ts),
{
    let mut out: Vec<char> = Vec::new();
    push_datetime(&mut out, ts);
    crate::codec::chars_to_string(&out)
}

/// `YYYY-MM-DD HH:MM:SS.mmm` as a `String`.
pub fn format_datetime_millis(ts: &Timestamp) -> (s: String)
    requires
        ts.wf(),
    ensures
        s@ == spec_datetime_millis(*ts),
{
    let mut out: Vec<char> = Vec::new();
    push_datetime(&mut out, ts);
    out.push('.');
    push_three_digits(&mut out, ts.millis as u32);
    assert(out@ =~= spec_datetime_millis(*ts));
    crate::codec::chars_to_string(&out)
}

/// `YYYYMMDD_HHMMSS` as a `String`.
pub fn format_compact(ts: &Timestamp) -> (s: String)
    requires
        ts.wf(),
    ensures
        s@ == spec_compact(*ts),
{
    let mut out: Vec<char> = Vec::new();
    push_four_digits(&mut out, ts.year);
    push_two_digits(&mut out, ts.month as u32);
    push_two_digits(&mut out, ts.day as u32);
    out.push('_');
    push_two_digits(&mut out, ts.hour as u32);
    push_two_digits(&mut out, ts.minute as u32);
    push_two_digits(&mut out, ts.second as u32);
    assert(out@ =~= spec_compact(*ts));
    crate::codec::chars_to_string(&out)
}

/// Relies on `chrono::Local::now` and chrono's `Datelike`/`Timelike`
/// accessors: the month is in `1..=12`, the day in `1..=31`, hour below 24,
/// minute and second below 60, and `timestamp_subsec_millis` below 2000
/// (values of 1000 and above stand for a leap second). The year is `i32`
/// and carried unclamped.
#[verifier::external_body]
fn clock_now_raw() -> (r: (i32, u8, u8, u8, u8, u8, u16))
    ensures
        1 <= r.1 <= 12,
        1 <= r.2 <= 31,
        r.3 < 24,
        r.4 < 60,
        r.5 < 60,
        r.6 < 2000,
{
    let now = chrono::Local::now();
    (
        now.year(),
        now.month() as u8,
        now.day() as u8,
        now.hour() as u8,
        now.minute() as u8,
        now.second() as u8,
        now.timestamp_subsec_millis() as u16,
    )
}

/// The current local time as a well-formed timestamp; years outside
/// `0..=9999` and leap-second milliseconds are clamped into range.
pub fn now_timestamp() -> (t: Timestamp)
    ensures
        t.wf(),
{
    let (year, month, day, hour, minute, second, millis) = clock_now_raw();
    let y: u32 = if year < 0 {
        0
    } else if year > 9999 {
        9999
    } else {
        year as u32
    };
    let ms: u16 = if millis > 999 {
        999
    } else {
        millis
    };
    Timestamp { year: y, month, day, hour, minute, second, millis: ms }
}

} // verus!
