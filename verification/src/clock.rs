//! The clock module's text: the wall-clock reading comes from the
//! system through one trusted call, and everything built from it —
//! zero-padded decimal fields, the date line, the weekday name — is
//! verified byte by byte.

use vstd::prelude::*;

use chrono::Datelike;
use chrono::Timelike;

use crate::parse::{spec_all_digits, spec_decimal_value};

verus! {

/// One reading of the wall clock, splayed into plain values.
#[derive(Clone, Copy, Debug, PartialEq, Eq, Structural)]
pub struct ClockParts {
    pub year: i32,
    /// 1 to 12.
    pub month: u32,
    /// 1 to 31.
    pub day: u32,
    /// Days since Monday, 0 to 6.
    pub weekday: u32,
    pub hour: u32,
    pub minute: u32,
    pub second: u32,
    pub utc_hour: u32,
    pub utc_minute: u32,
    pub utc_second: u32,
}

impl ClockParts {
    /// The ranges chrono documents for its calendar and clock fields.
    pub open spec fn spec_wf(self) -> bool {
        &&& 1 <= self.month <= 12
        &&& 1 <= self.day <= 31
        &&& self.weekday <= 6
        &&& self.hour < 24
        &&& self.minute < 60
        &&& self.second < 60
        &&& self.utc_hour < 24
        &&& self.utc_minute < 60
        &&& self.utc_second < 60
    }
}

/// Relies on chrono's `Local::now`, its `Datelike`/`Timelike`
/// accessors and `Weekday::num_days_from_monday`, and
/// `DateTime::naive_utc` for the UTC fields. The reading depends on
/// the clock and time zone, so nothing is promised beyond the ranges
/// chrono documents: month 1–12, day 1–31, hour below 24, minute and
/// second below 60, weekday offset below 7.
#[verifier::external_body]
pub fn read_local_clock() -> (r: ClockParts)
    ensures
        r.spec_wf(),
{
    let now = chrono::Local::now();
    let utc = now.naive_utc();
    ClockParts {
        year: now.year(),
        month: now.month(),
        day: now.day(),
        weekday: now.weekday().num_days_from_monday(),
        hour: now.hour(),
        minute: now.minute(),
        second: now.second(),
        utc_hour: utc.hour(),
        utc_minute: utc.minute(),
        utc_second: utc.second(),
    }
}

/// Appends `n` as exactly two digits, zero padded.
pub fn push_two_digits(out: &mut Vec<u8>, n: u32)
    requires
        n < 100,
    ensures
        final(out)@ =~= old(out)@ + spec_two_digits(n as int),
{
    out.push(0x30 + (n / 10) as u8);
    out.push(0x30 + (n % 10) as u8);
}

/// The two-digit decimal spelling of `n`.
pub open spec fn spec_two_digits(n: int) -> Seq<u8> {
    seq![(0x30 + n / 10) as u8, (0x30 + n % 10) as u8]
}

/// The four-digit decimal spelling of `n`.
pub open spec fn spec_four_digits(n: int) -> Seq<u8> {
    seq![
        (0x30 + n / 1000) as u8,
        (0x30 + (n / 100) % 10) as u8,
        (0x30 + (n / 10) % 10) as u8,
        (0x30 + n % 10) as u8,
    ]
}

/// Appends `n` as exactly four digits, zero padded.
pub fn push_four_digits(out: &mut Vec<u8>, n: u32)
    requires
        n < 10000,
    ensures
        final(out)@ =~= old(out)@ + spec_four_digits(n as int),
{
    out.push(0x30 + (n / 1000) as u8);
    out.push(0x30 + ((n / 100) % 10) as u8);
    out.push(0x30 + ((n / 10) % 10) as u8);
    out.push(0x30 + (n % 10) as u8);
}

/// The two-digit spelling reads back as its value.
pub proof fn lemma_two_digits_value(n: int)
    requires
        0 <= n < 100,
    ensures
        spec_two_digits(n).len() == 2,
        spec_all_digits(spec_two_digits(n)),
        spec_decimal_value(spec_two_digits(n)) == n,
{
    reveal_with_fuel(spec_decimal_value, 4);
    let s = spec_two_digits(n);
    assert(s.drop_last() =~= seq![(0x30 + n / 10) as u8]);
    assert(s.drop_last().drop_last() =~= Seq::<u8>::empty());
}

/// The four-digit spelling reads back as its value.
pub proof fn lemma_four_digits_value(n: int)
    requires
        0 <= n < 10000,
    ensures
        spec_four_digits(n).len() == 4,
        spec_all_digits(spec_four_digits(n)),
        spec_decimal_value(spec_four_digits(n)) == n,
{
    reveal_with_fuel(spec_decimal_value, 6);
    let s = spec_four_digits(n);
    assert(s.drop_last() =~= seq![
        (0x30 + n / 1000) as u8,
        (0x30 + (n / 100) % 10) as u8,
        (0x30 + (n / 10) % 10) as u8,
    ]);
    assert(s.drop_last().drop_last() =~= seq![
        (0x30 + n / 1000) as u8,
        (0x30 + (n / 100) % 10) as u8,
    ]);
    assert(s.drop_last().drop_last().drop_last() =~= seq![(0x30 + n / 1000) as u8]);
    assert(s.drop_last().drop_last().drop_last().drop_last() =~= Seq::<u8>::empty());
    assert(n == ((n / 1000) * 10 + (n / 100) % 10) * 100 + ((n / 10) % 10) * 10 + n % 10) by (nonlinear_arith)
        requires
            0 <= n < 10000,
    ;
}

/// The short weekday name, `w` days after Monday.
pub open spec fn spec_weekday_name(w: int) -> Seq<u8> {
    if w == 0 {
        seq![0x4D, 0x6F, 0x6E]
    } else if w == 1 {
        seq![0x54, 0x75, 0x65]
    } else if w == 2 {
        seq![0x57, 0x65, 0x64]
    } else if w == 3 {
        seq![0x54, 0x68, 0x75]
    } else if w == 4 {
        seq![0x46, 0x72, 0x69]
    } else if w == 5 {
        seq![0x53, 0x61, 0x74]
    } else {
        seq![0x53, 0x75, 0x6E]
    }
}

fn push_weekday_name(out: &mut Vec<u8>, w: u32)
    requires
        w <= 6,
    ensures
        final(out)@ =~= old(out)@ + spec_weekday_name(w as int),
{
    if w == 0 {
        out.push(0x4D);
        out.push(0x6F);
        out.push(0x6E);
    } else if w == 1 {
        out.push(0x54);
        out.push(0x75);
        out.push(0x65);
    } else if w == 2 {
        out.push(0x57);
        out.push(0x65);
        out.push(0x64);
    } else if w == 3 {
        out.push(0x54);
        out.push(0x68);
        out.push(0x75);
    } else if w == 4 {
        out.push(0x46);
        out.push(0x72);
        out.push(0x69);
    } else if w == 5 {
        out.push(0x53);
        out.push(0x61);
        out.push(0x74);
    } else {
        out.push(0x53);
        out.push(0x75);
        out.push(0x6E);
    }
}

/// `HH:MM:SS`.
pub open spec fn spec_time_text(h: int, m: int, s: int) -> Seq<u8> {
    spec_two_digits(h) + seq![0x3Au8] + spec_two_digits(m) + seq![0x3Au8] + spec_two_digits(s)
}

/// `YYYY-MM-DD`.
pub open spec fn spec_date_text(y: int, m: int, d: int) -> Seq<u8> {
    spec_four_digits(y) + seq![0x2Du8] + spec_two_digits(m) + seq![0x2Du8] + spec_two_digits(d)
}

/// The clock module's whole line:
/// `Www, YYYY-MM-DD at HH:MM:SS or HH:MM:SS`, the first time local
/// and the second UTC.
pub open spec fn spec_clock_text(p: ClockParts) -> Seq<u8> {
    spec_weekday_name(p.weekday as int) + seq![0x2Cu8, 0x20u8] + spec_date_text(
        p.year as int,
        p.month as int,
        p.day as int,
    ) + seq![0x20u8, 0x61u8, 0x74u8, 0x20u8] + spec_time_text(
        p.hour as int,
        p.minute as int,
        p.second as int,
    ) + seq![0x20u8, 0x6Fu8, 0x72u8, 0x20u8] + spec_time_text(
        p.utc_hour as int,
        p.utc_minute as int,
        p.utc_second as int,
    )
}

/// Builds the clock line for one reading, byte for byte as
/// `spec_clock_text` states it. Years outside `0..=9999` do not fit
/// the four-digit field.
#[verifier::rlimit(60)]
pub fn clock_text(p: &ClockParts) -> (r: Vec<u8>)
    requires
        p.spec_wf(),
        0 <= p.year < 10000,
    ensures
        r@ =~= spec_clock_text(*p),
{
    let mut out: Vec<u8> = Vec::new();
    push_weekday_name(&mut out, p.weekday);
    out.push(0x2C);
    out.push(0x20);
    push_four_digits(&mut out, p.year as u32);
    out.push(0x2D);
    push_two_digits(&mut out, p.month);
    out.push(0x2D);
    push_two_digits(&mut out, p.day);
    out.push(0x20);
    out.push(0x61);
    out.push(0x74);
    out.push(0x20);
    push_two_digits(&mut out, p.hour);
    out.push(0x3A);
    push_two_digits(&mut out, p.minute);
    out.push(0x3A);
    push_two_digits(&mut out, p.second);
    out.push(0x20);
    out.push(0x6F);
    out.push(0x72);
    out.push(0x20);
    push_two_digits(&mut out, p.utc_hour);
    out.push(0x3A);
    push_two_digits(&mut out, p.utc_minute);
    out.push(0x3A);
    push_two_digits(&mut out, p.utc_second);
    out
}

/// Reads the clock and builds the line; `None` only for a reading
/// whose year has no four-digit spelling.
pub fn clock_line_now() -> (r: Option<Vec<u8>>)
    ensures
        match r {
            Option::Some(text) => exists|p: ClockParts|
                p.spec_wf() && 0 <= p.year < 10000 && text@ =~= #[trigger] spec_clock_text(p),
            Option::None => true,
        },
{
    let parts = read_local_clock();
    if parts.year >= 0 && parts.year < 10000 {
        let text = clock_text(&parts);
        proof {
            assert(text@ =~= spec_clock_text(parts));
        }
        Option::Some(text)
    } else {
        Option::None
    }
}

} // verus!
