//! DATE and DATE-TIME values (RFC 5545 §3.3.4, §3.3.5), the calendar
//! arithmetic that moves a local time to UTC, and the time zone offsets
//! that arithmetic needs.

use vstd::prelude::*;
use vstd::utf8::valid_utf8;
use chrono::{Offset, TimeZone};
use crate::bytes::{lemma_ascii_seq_valid, DIGIT_NINE, DIGIT_ZERO};
use crate::values::{all_digits, digits_value, is_digit_byte, malformed_value, Ical, ValueError};

verus! {

/// A type that can be read from the raw bytes of a `DATE` or `DATE-TIME`
/// value.
pub trait DateTimeExt: Sized {
    /// Reads `b`, the raw bytes of a `DATE` or `DATE-TIME` value.
    fn from_ical(b: &[u8]) -> Self;
}

pub const UPPER_T: u8 = 84;
pub const UPPER_Z_BYTE: u8 = 90;

// ---------------------------------------------------------------------
// The proleptic Gregorian calendar.

pub open spec fn is_leap(y: int) -> bool {
    y % 4 == 0 && (y % 100 != 0 || y % 400 == 0)
}

pub open spec fn days_in_month(y: int, m: int) -> int {
    if m == 2 {
        if is_leap(y) {
            29
        } else {
            28
        }
    } else if m == 4 || m == 6 || m == 9 || m == 11 {
        30
    } else {
        31
    }
}

pub open spec fn year_days(y: int) -> int {
    if is_leap(y) {
        366
    } else {
        365
    }
}

/// Days from 0000-01-01 to the first day of year `y`.
pub open spec fn days_before_year(y: nat) -> int
    decreases y,
{
    if y == 0 {
        0
    } else {
        days_before_year((y - 1) as nat) + year_days(y - 1)
    }
}

/// Days from the first of the year to the first of month `m`.
pub open spec fn days_before_month(y: int, m: int) -> int {
    let l: int = if is_leap(y) {
        1
    } else {
        0
    };
    if m <= 1 {
        0
    } else if m == 2 {
        31
    } else if m == 3 {
        59 + l
    } else if m == 4 {
        90 + l
    } else if m == 5 {
        120 + l
    } else if m == 6 {
        151 + l
    } else if m == 7 {
        181 + l
    } else if m == 8 {
        212 + l
    } else if m == 9 {
        243 + l
    } else if m == 10 {
        273 + l
    } else if m == 11 {
        304 + l
    } else {
        334 + l
    }
}

/// Whether `y-m-d` is a date with a four-digit year.
pub open spec fn valid_date(y: int, m: int, d: int) -> bool {
    0 <= y <= 9999 && 1 <= m <= 12 && 1 <= d <= days_in_month(y, m)
}

/// The number of the day `y-m-d`, counting 0000-01-01 as day 0.
pub open spec fn day_number(y: int, m: int, d: int) -> int {
    days_before_year(y as nat) + days_before_month(y, m) + d - 1
}

/// The day after `y-m-d`.
pub open spec fn next_date(y: int, m: int, d: int) -> (int, int, int) {
    if d < days_in_month(y, m) {
        (y, m, d + 1)
    } else if m < 12 {
        (y, m + 1, 1)
    } else {
        (y + 1, 1, 1)
    }
}

/// The day before `y-m-d`.
pub open spec fn prev_date(y: int, m: int, d: int) -> (int, int, int) {
    if d > 1 {
        (y, m, d - 1)
    } else if m > 1 {
        (y, m - 1, days_in_month(y, m - 1))
    } else {
        (y - 1, 12, 31)
    }
}

/// The day after a date is numbered one more.
pub proof fn lemma_next_date(y: int, m: int, d: int)
    requires
        valid_date(y, m, d),
    ensures
        day_number(next_date(y, m, d).0, next_date(y, m, d).1, next_date(y, m, d).2) == day_number(
            y,
            m,
            d,
        ) + 1,
        next_date(y, m, d).0 <= 9999 ==> valid_date(
            next_date(y, m, d).0,
            next_date(y, m, d).1,
            next_date(y, m, d).2,
        ),
{
    if d == days_in_month(y, m) && m == 12 {
        assert(days_before_year((y + 1) as nat) == days_before_year(y as nat) + year_days(y));
    }
}

/// The day before a date is numbered one less, when it is in a year that
/// can be written.
pub proof fn lemma_prev_date(y: int, m: int, d: int)
    requires
        valid_date(y, m, d),
        prev_date(y, m, d).0 >= 0,
    ensures
        day_number(prev_date(y, m, d).0, prev_date(y, m, d).1, prev_date(y, m, d).2) == day_number(
            y,
            m,
            d,
        ) - 1,
        valid_date(prev_date(y, m, d).0, prev_date(y, m, d).1, prev_date(y, m, d).2),
{
    if d == 1 && m == 1 {
        assert(days_before_year(y as nat) == days_before_year((y - 1) as nat) + year_days(y - 1));
    }
}

// ---------------------------------------------------------------------
// Fixed-width decimal numbers.

/// The `w` lowest decimal digits of `n`, with leading zeros.
pub open spec fn padded(n: nat, w: nat) -> Seq<u8>
    decreases w,
{
    if w == 0 {
        seq![]
    } else {
        padded(n / 10, (w - 1) as nat).push((DIGIT_ZERO + n % 10) as u8)
    }
}

pub open spec fn pow10(w: nat) -> nat
    decreases w,
{
    if w == 0 {
        1
    } else {
        10 * pow10((w - 1) as nat)
    }
}

/// Reading `w` padded digits of `n < 10^w` gives back `n`.
pub proof fn lemma_padded(n: nat, w: nat)
    requires
        n < pow10(w),
    ensures
        padded(n, w).len() == w,
        all_digits(padded(n, w)),
        digits_value(padded(n, w)) == n,
    decreases w,
{
    if w > 0 {
        assert(n / 10 < pow10((w - 1) as nat)) by (nonlinear_arith)
            requires
                n < 10 * pow10((w - 1) as nat),
        ;
        lemma_padded(n / 10, (w - 1) as nat);
        let p = padded(n, w);
        assert(p.drop_last() =~= padded(n / 10, (w - 1) as nat));
        assert(n == (n / 10) * 10 + n % 10);
    }
}

pub(crate) fn write_padded(n: u32, w: usize, out: &mut Vec<u8>)
    ensures
        final(out)@ == old(out)@ + padded(n as nat, w as nat),
    decreases w,
{
    if w > 0 {
        write_padded(n / 10, w - 1, out);
        out.push(((n % 10) as u8) + DIGIT_ZERO);
        assert(out@ =~= old(out)@ + padded(n as nat, w as nat));
    }
}

/// The number the digits `v[a..b]` spell.
pub open spec fn num(v: Seq<u8>, a: int, b: int) -> int {
    digits_value(v.subrange(a, b)) as int
}

/// Whether `v[a..b]` is all digits.
pub open spec fn digits_in(v: Seq<u8>, a: int, b: int) -> bool {
    forall|i: int| a <= i < b ==> is_digit_byte(#[trigger] v[i])
}

pub(crate) fn read_number(v: &[u8], a: usize, b: usize) -> (r: u32)
    requires
        a <= b <= v.len(),
        b - a <= 4,
        digits_in(v@, a as int, b as int),
    ensures
        r as int == num(v@, a as int, b as int),
        r < 10000,
{
    let mut acc: u32 = 0;
    let mut i: usize = a;
    while i < b
        invariant
            a <= i <= b <= v.len(),
            b - a <= 4,
            digits_in(v@, a as int, b as int),
            acc as int == num(v@, a as int, i as int),
            acc < pow10((i - a) as nat),
        decreases b - i,
    {
        assert(v@.subrange(a as int, i + 1).drop_last() =~= v@.subrange(a as int, i as int));
        assert(is_digit_byte(v@[i as int]));
        proof {
            assert(pow10((i + 1 - a) as nat) == 10 * pow10((i - a) as nat));
        }
        assert(pow10((i - a) as nat) <= 1000) by {
            assert(pow10(0) == 1);
            assert(pow10(1) == 10);
            assert(pow10(2) == 100);
            assert(pow10(3) == 1000);
        }
        acc = acc * 10 + ((v[i] - DIGIT_ZERO) as u32);
        i += 1;
    }
    assert(pow10(4) == 10000) by {
        reveal_with_fuel(pow10, 5);
    }
    assert(pow10((b - a) as nat) <= 10000) by {
        reveal_with_fuel(pow10, 5);
    }
    acc
}

fn digits_between(v: &[u8], a: usize, b: usize) -> (r: bool)
    requires
        a <= b <= v.len(),
    ensures
        r == digits_in(v@, a as int, b as int),
{
    let mut i: usize = a;
    while i < b
        invariant
            a <= i <= b <= v.len(),
            digits_in(v@, a as int, i as int),
        decreases b - i,
    {
        if !(DIGIT_ZERO <= v[i] && v[i] <= DIGIT_NINE) {
            assert(!is_digit_byte(v@[i as int]));
            return false;
        }
        i += 1;
    }
    true
}

fn days_in(y: u32, m: u32) -> (r: u32)
    requires
        1 <= m <= 12,
    ensures
        r as int == days_in_month(y as int, m as int),
{
    if m == 2 {
        if y % 4 == 0 && (y % 100 != 0 || y % 400 == 0) {
            29
        } else {
            28
        }
    } else if m == 4 || m == 6 || m == 9 || m == 11 {
        30
    } else {
        31
    }
}

// ---------------------------------------------------------------------
// DATE.

/// A calendar date.
#[derive(Debug, Clone, Copy, PartialEq, Eq, Structural)]
pub struct Date {
    year: u16,
    month: u8,
    day: u8,
}

impl Date {
    #[verifier::type_invariant]
    spec fn exists_as_written(self) -> bool {
        valid_date(self.year as int, self.month as int, self.day as int)
    }

    pub closed spec fn spec_year(&self) -> int {
        self.year as int
    }

    pub closed spec fn spec_month(&self) -> int {
        self.month as int
    }

    pub closed spec fn spec_day(&self) -> int {
        self.day as int
    }

    /// Whether the date exists and has a four-digit year.
    pub open spec fn wf(&self) -> bool {
        valid_date(self.spec_year(), self.spec_month(), self.spec_day())
    }

    /// The number of the day, counting 0000-01-01 as day 0.
    pub open spec fn number(&self) -> int {
        day_number(self.spec_year(), self.spec_month(), self.spec_day())
    }

    /// Whether `v` parses: `YYYYMMDD`, naming a date that exists.
    pub open spec fn parses(v: Seq<u8>) -> bool {
        &&& v.len() == 8
        &&& digits_in(v, 0, 8)
        &&& valid_date(num(v, 0, 4), num(v, 4, 6), num(v, 6, 8))
    }

    /// Whether `d` is what `v` parses to.
    pub open spec fn accepts(v: Seq<u8>, d: Date) -> bool {
        d.spec_year() == num(v, 0, 4) && d.spec_month() == num(v, 4, 6) && d.spec_day() == num(
            v,
            6,
            8,
        )
    }

    /// Parses `YYYYMMDD`.
    pub fn try_from(v: &[u8]) -> (r: Result<Date, ValueError>)
        ensures
            r is Ok <==> Date::parses(v@),
            r matches Ok(d) ==> Date::accepts(v@, d) && d.wf(),
    {
        if v.len() != 8 || !digits_between(v, 0, 8) {
            return Err(malformed_value("a DATE (YYYYMMDD)", v));
        }
        date_at(v, 0).ok_or(malformed_value("a DATE (YYYYMMDD)", v))
    }
}

/// The date `YYYYMMDD` written at `v[i..i + 8]`, if it exists.
fn date_at(v: &[u8], i: usize) -> (r: Option<Date>)
    requires
        i + 8 <= v.len(),
        digits_in(v@, i as int, i + 8),
    ensures
        r is Some <==> valid_date(num(v@, i as int, i + 4), num(v@, i + 4, i + 6), num(v@, i + 6, i + 8)),
        r matches Some(d) ==> d.wf() && d.spec_year() == num(v@, i as int, i + 4) && d.spec_month()
            == num(v@, i + 4, i + 6) && d.spec_day() == num(v@, i + 6, i + 8),
{
    let y = read_number(v, i, i + 4);
    let m = read_number(v, i + 4, i + 6);
    let d = read_number(v, i + 6, i + 8);
    if m < 1 || m > 12 || d < 1 || d > days_in(y, m) {
        return None;
    }
    Some(Date { year: y as u16, month: m as u8, day: d as u8 })
}

impl Ical for Date {
    /// Written `YYYYMMDD`.
    open spec fn ical(&self) -> Seq<u8> {
        padded(self.spec_year() as nat, 4) + padded(self.spec_month() as nat, 2) + padded(
            self.spec_day() as nat,
            2,
        )
    }

    proof fn lemma_ical_valid(&self) {
        lemma_padded_ascii(self.spec_year() as nat, 4);
        lemma_padded_ascii(self.spec_month() as nat, 2);
        lemma_padded_ascii(self.spec_day() as nat, 2);
        lemma_ascii_seq_valid(self.ical());
    }

    fn write_to(&self, out: &mut Vec<u8>) {
        write_padded(self.year as u32, 4, out);
        write_padded(self.month as u32, 2, out);
        write_padded(self.day as u32, 2, out);
        assert(out@ =~= old(out)@ + self.ical());
    }
}

/// Padded digits are ASCII.
pub proof fn lemma_padded_ascii(n: nat, w: nat)
    ensures
        forall|i: int| 0 <= i < padded(n, w).len() ==> #[trigger] padded(n, w)[i] < 128,
    decreases w,
{
    if w > 0 {
        lemma_padded_ascii(n / 10, (w - 1) as nat);
        let p = padded(n, w);
        let q = padded(n / 10, (w - 1) as nat);
        assert forall|i: int| 0 <= i < p.len() implies #[trigger] p[i] < 128 by {
            if i < q.len() {
                assert(p[i] == q[i]);
            }
        }
    }
}

/// Reading a written date gives it back.
pub proof fn lemma_date_round_trip(d: Date)
    requires
        d.wf(),
    ensures
        Date::parses(d.ical()),
        Date::accepts(d.ical(), d),
{
    reveal_with_fuel(pow10, 5);
    let v = d.ical();
    lemma_padded(d.spec_year() as nat, 4);
    lemma_padded(d.spec_month() as nat, 2);
    lemma_padded(d.spec_day() as nat, 2);
    let a = padded(d.spec_year() as nat, 4);
    let b = padded(d.spec_month() as nat, 2);
    let c = padded(d.spec_day() as nat, 2);
    assert(v.subrange(0, 4) =~= a);
    assert(v.subrange(4, 6) =~= b);
    assert(v.subrange(6, 8) =~= c);
    assert forall|i: int| 0 <= i < 8 implies is_digit_byte(#[trigger] v[i]) by {
        if i < 4 {
            assert(v[i] == a[i]);
        } else if i < 6 {
            assert(v[i] == b[i - 4]);
        } else {
            assert(v[i] == c[i - 6]);
        }
    }
}

// ---------------------------------------------------------------------
// DATE-TIME.

/// A date and a time of day: in UTC, or floating (local time, with no zone
/// of its own).
#[derive(Debug, Clone, Copy, PartialEq, Eq, Structural)]
pub struct DateTime {
    date: Date,
    hour: u8,
    minute: u8,
    second: u8,
    utc: bool,
}

/// Whether `h:m:s` is a time of day.
pub open spec fn valid_time(h: int, m: int, s: int) -> bool {
    0 <= h < 24 && 0 <= m < 60 && 0 <= s < 60
}

impl DateTime {
    #[verifier::type_invariant]
    spec fn is_time_of_day(self) -> bool {
        valid_time(self.hour as int, self.minute as int, self.second as int)
    }

    pub closed spec fn spec_date(&self) -> Date {
        self.date
    }

    pub closed spec fn spec_hour(&self) -> int {
        self.hour as int
    }

    pub closed spec fn spec_minute(&self) -> int {
        self.minute as int
    }

    pub closed spec fn spec_second(&self) -> int {
        self.second as int
    }

    /// Whether the time is in UTC rather than floating.
    pub closed spec fn spec_utc(&self) -> bool {
        self.utc
    }

    /// Whether the date exists and the time is a time of day.
    pub open spec fn wf(&self) -> bool {
        self.spec_date().wf() && valid_time(self.spec_hour(), self.spec_minute(), self.spec_second())
    }

    /// Seconds since 0000-01-01T00:00:00 on the same clock.
    pub open spec fn instant(&self) -> int {
        self.spec_date().number() * 86400 + self.spec_hour() * 3600 + self.spec_minute() * 60
            + self.spec_second()
    }

    /// Whether `v` parses: `YYYYMMDDTHHMMSS`, then `Z` for UTC.
    pub open spec fn parses(v: Seq<u8>) -> bool {
        &&& (v.len() == 15 || (v.len() == 16 && v[15] == UPPER_Z_BYTE))
        &&& digits_in(v, 0, 8)
        &&& v[8] == UPPER_T
        &&& digits_in(v, 9, 15)
        &&& valid_date(num(v, 0, 4), num(v, 4, 6), num(v, 6, 8))
        &&& valid_time(num(v, 9, 11), num(v, 11, 13), num(v, 13, 15))
    }

    /// Whether `d` is what `v` parses to.
    pub open spec fn accepts(v: Seq<u8>, d: DateTime) -> bool {
        &&& Date::accepts(v.take(8), d.spec_date())
        &&& d.spec_hour() == num(v, 9, 11)
        &&& d.spec_minute() == num(v, 11, 13)
        &&& d.spec_second() == num(v, 13, 15)
        &&& d.spec_utc() == (v.len() == 16)
    }

    /// Parses `YYYYMMDDTHHMMSS` or `YYYYMMDDTHHMMSSZ`.
    pub fn try_from(v: &[u8]) -> (r: Result<DateTime, ValueError>)
        ensures
            r is Ok <==> DateTime::parses(v@),
            r matches Ok(d) ==> DateTime::accepts(v@, d) && d.wf(),
    {
        let utc = v.len() == 16 && v[15] == UPPER_Z_BYTE;
        if !(v.len() == 15 || utc) || !digits_between(v, 0, 8) || v[8] != UPPER_T
            || !digits_between(v, 9, 15) {
            return Err(malformed_value("a DATE-TIME (YYYYMMDDTHHMMSS[Z])", v));
        }
        let date = match date_at(v, 0) {
            Some(d) => d,
            None => {
                return Err(malformed_value("a DATE-TIME (YYYYMMDDTHHMMSS[Z])", v));
            },
        };
        let hour = read_number(v, 9, 11);
        let minute = read_number(v, 11, 13);
        let second = read_number(v, 13, 15);
        if hour >= 24 || minute >= 60 || second >= 60 {
            return Err(malformed_value("a DATE-TIME (YYYYMMDDTHHMMSS[Z])", v));
        }
        proof {
            assert(v@.take(8).subrange(0, 4) =~= v@.subrange(0, 4));
            assert(v@.take(8).subrange(4, 6) =~= v@.subrange(4, 6));
            assert(v@.take(8).subrange(6, 8) =~= v@.subrange(6, 8));
        }
        Ok(DateTime { date, hour: hour as u8, minute: minute as u8, second: second as u8, utc })
    }

    /// The date.
    pub fn date(&self) -> (r: Date)
        ensures
            r == self.spec_date(),
    {
        self.date
    }

    /// Whether the time is in UTC.
    pub fn is_utc(&self) -> (r: bool)
        ensures
            r == self.spec_utc(),
    {
        self.utc
    }
}

impl Ical for DateTime {
    /// Written `YYYYMMDDTHHMMSS`, with `Z` after it in UTC.
    open spec fn ical(&self) -> Seq<u8> {
        self.spec_date().ical() + seq![UPPER_T] + padded(self.spec_hour() as nat, 2) + padded(
            self.spec_minute() as nat,
            2,
        ) + padded(self.spec_second() as nat, 2) + if self.spec_utc() {
            seq![UPPER_Z_BYTE]
        } else {
            seq![]
        }
    }

    proof fn lemma_ical_valid(&self) {
        self.spec_date().lemma_ical_valid();
        let h = padded(self.spec_hour() as nat, 2);
        let mi = padded(self.spec_minute() as nat, 2);
        let se = padded(self.spec_second() as nat, 2);
        lemma_padded_ascii(self.spec_hour() as nat, 2);
        lemma_padded_ascii(self.spec_minute() as nat, 2);
        lemma_padded_ascii(self.spec_second() as nat, 2);
        lemma_ascii_seq_valid(h);
        lemma_ascii_seq_valid(mi);
        lemma_ascii_seq_valid(se);
        crate::bytes::lemma_ascii_valid(UPPER_T);
        crate::bytes::lemma_ascii_valid(UPPER_Z_BYTE);
        let z: Seq<u8> = if self.spec_utc() {
            seq![UPPER_Z_BYTE]
        } else {
            seq![]
        };
        assert(valid_utf8(z));
        let a = self.spec_date().ical();
        vstd::utf8::valid_utf8_concat(a, seq![UPPER_T]);
        vstd::utf8::valid_utf8_concat(a + seq![UPPER_T], h);
        vstd::utf8::valid_utf8_concat(a + seq![UPPER_T] + h, mi);
        vstd::utf8::valid_utf8_concat(a + seq![UPPER_T] + h + mi, se);
        vstd::utf8::valid_utf8_concat(a + seq![UPPER_T] + h + mi + se, z);
    }

    fn write_to(&self, out: &mut Vec<u8>) {
        self.date.write_to(out);
        out.push(UPPER_T);
        write_padded(self.hour as u32, 2, out);
        write_padded(self.minute as u32, 2, out);
        write_padded(self.second as u32, 2, out);
        if self.utc {
            out.push(UPPER_Z_BYTE);
        }
        assert(out@ =~= old(out)@ + self.ical());
    }
}

/// Reading a written date-time gives it back.
pub proof fn lemma_datetime_round_trip(d: DateTime)
    requires
        d.wf(),
    ensures
        DateTime::parses(d.ical()),
        DateTime::accepts(d.ical(), d),
{
    reveal_with_fuel(pow10, 3);
    let v = d.ical();
    lemma_date_round_trip(d.spec_date());
    lemma_padded(d.spec_hour() as nat, 2);
    lemma_padded(d.spec_minute() as nat, 2);
    lemma_padded(d.spec_second() as nat, 2);
    let a = d.spec_date().ical();
    let h = padded(d.spec_hour() as nat, 2);
    let mi = padded(d.spec_minute() as nat, 2);
    let s = padded(d.spec_second() as nat, 2);
    assert(v.take(8) =~= a);
    assert(v.subrange(0, 4) =~= a.subrange(0, 4));
    assert(v.subrange(4, 6) =~= a.subrange(4, 6));
    assert(v.subrange(6, 8) =~= a.subrange(6, 8));
    assert(v.subrange(9, 11) =~= h);
    assert(v.subrange(11, 13) =~= mi);
    assert(v.subrange(13, 15) =~= s);
    assert forall|i: int| 0 <= i < 8 implies is_digit_byte(#[trigger] v[i]) by {
        assert(v[i] == a[i]);
    }
    assert forall|i: int| 9 <= i < 15 implies is_digit_byte(#[trigger] v[i]) by {
        if i < 11 {
            assert(v[i] == h[i - 9]);
        } else if i < 13 {
            assert(v[i] == mi[i - 11]);
        } else {
            assert(v[i] == s[i - 13]);
        }
    }
}

// ---------------------------------------------------------------------
// Moving a local time to UTC.

/// The UTC date-time for the local date-time `d` in a zone whose UTC
/// offset there is `offset` seconds (local = UTC + offset); `None` when it
/// would fall outside the years `0000`..`9999`.
pub closed spec fn shift(d: DateTime, offset: int) -> Option<DateTime> {
    let secs = d.spec_hour() * 3600 + d.spec_minute() * 60 + d.spec_second() - offset;
    let dt = d.spec_date();
    let (y, m, dd, s) = if secs < 0 {
        let p = prev_date(dt.spec_year(), dt.spec_month(), dt.spec_day());
        (p.0, p.1, p.2, secs + 86400)
    } else if secs >= 86400 {
        let n = next_date(dt.spec_year(), dt.spec_month(), dt.spec_day());
        (n.0, n.1, n.2, secs - 86400)
    } else {
        (dt.spec_year(), dt.spec_month(), dt.spec_day(), secs)
    };
    if 0 <= y <= 9999 {
        Some(
            DateTime {
                date: Date { year: y as u16, month: m as u8, day: dd as u8 },
                hour: (s / 3600) as u8,
                minute: ((s % 3600) / 60) as u8,
                second: (s % 60) as u8,
                utc: true,
            },
        )
    } else {
        None
    }
}

/// Shifting by an offset of less than a day lands on the same instant,
/// less the offset, and on a date-time that exists.
pub proof fn lemma_shift_instant(d: DateTime, offset: int)
    requires
        d.wf(),
        -86400 < offset < 86400,
    ensures
        shift(d, offset) matches Some(u) ==> u.wf() && u.spec_utc() && u.instant() == d.instant()
            - offset,
{
    let dt = d.spec_date();
    let secs = d.spec_hour() * 3600 + d.spec_minute() * 60 + d.spec_second() - offset;
    if secs < 0 {
        if prev_date(dt.spec_year(), dt.spec_month(), dt.spec_day()).0 >= 0 {
            lemma_prev_date(dt.spec_year(), dt.spec_month(), dt.spec_day());
        }
    } else if secs >= 86400 {
        lemma_next_date(dt.spec_year(), dt.spec_month(), dt.spec_day());
    }
    if let Some(u) = shift(d, offset) {
        let s = if secs < 0 {
            secs + 86400
        } else if secs >= 86400 {
            secs - 86400
        } else {
            secs
        };
        assert(0 <= s < 86400);
        assert(s == (s / 3600) * 3600 + ((s % 3600) / 60) * 60 + s % 60) by (nonlinear_arith)
            requires
                0 <= s < 86400,
        ;
        assert(s / 3600 < 24 && (s % 3600) / 60 < 60 && s % 60 < 60) by (nonlinear_arith)
            requires
                0 <= s < 86400,
        ;
    }
}

fn next_date_of(d: Date) -> (r: Option<Date>)
    requires
        d.wf(),
    ensures
        match r {
            Some(n) => n.wf() && (n.spec_year(), n.spec_month(), n.spec_day()) == next_date(
                d.spec_year(),
                d.spec_month(),
                d.spec_day(),
            ),
            None => next_date(d.spec_year(), d.spec_month(), d.spec_day()).0 > 9999,
        },
{
    proof {
        lemma_next_date(d.spec_year(), d.spec_month(), d.spec_day());
    }
    if (d.day as u32) < days_in(d.year as u32, d.month as u32) {
        Some(Date { year: d.year, month: d.month, day: d.day + 1 })
    } else if d.month < 12 {
        Some(Date { year: d.year, month: d.month + 1, day: 1 })
    } else if d.year < 9999 {
        Some(Date { year: d.year + 1, month: 1, day: 1 })
    } else {
        None
    }
}

fn prev_date_of(d: Date) -> (r: Option<Date>)
    requires
        d.wf(),
    ensures
        match r {
            Some(p) => p.wf() && (p.spec_year(), p.spec_month(), p.spec_day()) == prev_date(
                d.spec_year(),
                d.spec_month(),
                d.spec_day(),
            ),
            None => prev_date(d.spec_year(), d.spec_month(), d.spec_day()).0 < 0,
        },
{
    if d.day > 1 {
        proof {
            lemma_prev_date(d.spec_year(), d.spec_month(), d.spec_day());
        }
        Some(Date { year: d.year, month: d.month, day: d.day - 1 })
    } else if d.month > 1 {
        proof {
            lemma_prev_date(d.spec_year(), d.spec_month(), d.spec_day());
        }
        let m = d.month - 1;
        Some(Date { year: d.year, month: m, day: days_in(d.year as u32, m as u32) as u8 })
    } else if d.year > 0 {
        proof {
            lemma_prev_date(d.spec_year(), d.spec_month(), d.spec_day());
        }
        Some(Date { year: d.year - 1, month: 12, day: 31 })
    } else {
        None
    }
}

impl DateTime {
    /// The UTC date-time for this local one, in a zone whose UTC offset here
    /// is `offset` seconds.
    pub fn shifted(&self, offset: i32) -> (r: Option<DateTime>)
        requires
            -86400 < offset < 86400,
        ensures
            r == shift(*self, offset as int),
            r matches Some(u) ==> u.wf() && u.spec_utc() && u.instant() == self.instant()
                - offset,
    {
        proof {
            use_type_invariant(self);
            use_type_invariant(&self.date);
            lemma_shift_instant(*self, offset as int);
        }
        let secs: i64 = (self.hour as i64) * 3600 + (self.minute as i64) * 60 + (self.second as i64)
            - (offset as i64);
        let (date, s) = if secs < 0 {
            match prev_date_of(self.date) {
                Some(p) => (p, secs + 86400),
                None => {
                    return None;
                },
            }
        } else if secs >= 86400 {
            match next_date_of(self.date) {
                Some(n) => (n, secs - 86400),
                None => {
                    return None;
                },
            }
        } else {
            (self.date, secs)
        };
        Some(
            DateTime {
                date,
                hour: (s / 3600) as u8,
                minute: ((s % 3600) / 60) as u8,
                second: (s % 60) as u8,
                utc: true,
            },
        )
    }
}

/// The UTC offset, in seconds, of the zone named `name` at the local time
/// `year-month-day hour:minute:second`: the earlier one where that local
/// time occurs twice, `None` where the name isn't a zone of the zone
/// database or the local time doesn't occur there.
pub uninterp spec fn zone_offset(
    name: Seq<char>,
    year: int,
    month: int,
    day: int,
    hour: int,
    minute: int,
    second: int,
) -> Option<int>;

/// A time zone of the chrono-tz zone database.
#[verifier::external_type_specification]
#[verifier::external_body]
pub struct ExZone(chrono_tz::Tz);

/// Whether the chrono-tz zone database has a zone of this exact name.
pub uninterp spec fn zone_known(name: Seq<char>) -> bool;

/// Looks a zone up by name.
///
/// Calls `chrono_tz::Tz`'s `FromStr`, an exact lookup of `name` in the
/// table of zone names compiled into chrono-tz. The contract names whether
/// that lookup succeeds, `zone_known`, a function of the name alone; it
/// claims nothing about which names the table holds, nor which zone comes
/// back.
#[verifier::external_body]
pub(crate) fn parse_zone(name: &str) -> (r: Option<chrono_tz::Tz>)
    ensures
        r is Some <==> zone_known(name@),
{
    name.parse().ok()
}

/// A zone's name.
///
/// Calls `chrono_tz::Tz::name`, which gives the key that the zone has in
/// the table `FromStr` looks names up in; the contract claims that much, a
/// name the lookup knows, and not which name of the table it is.
#[verifier::external_body]
pub(crate) fn zone_name(tz: chrono_tz::Tz) -> (r: &'static str)
    ensures
        zone_known(r@),
{
    tz.name()
}

/// Looks up a zone's UTC offset at a local time.
///
/// Parses `name` as a `chrono_tz::Tz`, maps the local time into the zone
/// with `TimeZone::from_local_datetime`, keeps the earliest of the results
/// and returns its `FixedOffset::local_minus_utc`. The contract names the
/// result `zone_offset`, a function of the arguments alone (the zone data
/// is compiled into chrono-tz), claims that a fixed offset is less than a
/// day either way, as `FixedOffset` guarantees, and that there is none for
/// a name the zone lookup does not know; it claims nothing
/// about which zones exist or what their rules are.
#[verifier::external_body]
fn local_offset(name: &str, year: u16, month: u8, day: u8, hour: u8, minute: u8, second: u8) -> (r:
    Option<i32>)
    ensures
        r matches Some(o) ==> -86400 < o < 86400,
        !zone_known(name@) ==> r is None,
        match r {
            Some(o) => zone_offset(name@, year as int, month as int, day as int, hour as int, minute as int, second as int) == Some(o as int),
            None => zone_offset(name@, year as int, month as int, day as int, hour as int, minute as int, second as int) is None,
        },
{
    let tz: chrono_tz::Tz = name.parse().ok()?;
    let local = chrono::NaiveDate::from_ymd_opt(year as i32, month as u32, day as u32)?
        .and_hms_opt(hour as u32, minute as u32, second as u32)?;
    let at = tz.from_local_datetime(&local).earliest()?;
    Some(at.offset().fix().local_minus_utc())
}

/// `d` read in the zone named `tz`: a floating date-time becomes UTC when
/// the zone has an offset there; anything else stays as it is.
pub open spec fn resolved(d: DateTime, tz: Option<Seq<char>>) -> DateTime {
    match tz {
        Some(name) => if d.spec_utc() {
            d
        } else {
            match zone_offset(
                name,
                d.spec_date().spec_year(),
                d.spec_date().spec_month(),
                d.spec_date().spec_day(),
                d.spec_hour(),
                d.spec_minute(),
                d.spec_second(),
            ) {
                Some(o) => match shift(d, o) {
                    Some(u) => u,
                    None => d,
                },
                None => d,
            }
        },
        None => d,
    }
}

impl DateTime {
    /// Reads a floating date-time in the zone named `tz`, giving the UTC
    /// date-time when the zone has an offset at that local time.
    pub fn resolve_tz(&self, tz: Option<&str>) -> (r: DateTime)
        ensures
            r == resolved(*self, match tz {
                Some(t) => Some(t@),
                None => None,
            }),
            r.wf(),
    {
        proof {
            use_type_invariant(self);
            use_type_invariant(&self.date);
        }
        let name = match tz {
            Some(n) => n,
            None => {
                return *self;
            },
        };
        if self.utc {
            return *self;
        }
        match local_offset(
            name,
            self.date.year,
            self.date.month,
            self.date.day,
            self.hour,
            self.minute,
            self.second,
        ) {
            Some(o) => match self.shifted(o) {
                Some(u) => u,
                None => *self,
            },
            None => *self,
        }
    }
}

// ---------------------------------------------------------------------
// DATE or DATE-TIME.

/// A value that may be a DATE or a DATE-TIME, told apart by its shape.
#[derive(Debug, Clone, Copy, PartialEq, Eq, Structural)]
pub enum DateOrDatetime {
    /// A date.
    Date(Date),
    /// A date and time.
    DateTime(DateTime),
}

impl DateOrDatetime {
    /// Whether `v` parses as a DATE or a DATE-TIME.
    pub open spec fn parses(v: Seq<u8>) -> bool {
        Date::parses(v) || DateTime::parses(v)
    }

    /// Whether `x` is what `v` parses to.
    pub open spec fn accepts(v: Seq<u8>, x: DateOrDatetime) -> bool {
        if Date::parses(v) {
            x matches DateOrDatetime::Date(d) && Date::accepts(v, d)
        } else {
            x matches DateOrDatetime::DateTime(d) && DateTime::accepts(v, d)
        }
    }

    /// Whether the date or date-time is well formed.
    pub open spec fn wf(&self) -> bool {
        match self {
            DateOrDatetime::Date(d) => d.wf(),
            DateOrDatetime::DateTime(d) => d.wf(),
        }
    }

    /// Parses a DATE, or else a DATE-TIME.
    pub fn try_from(v: &[u8]) -> (r: Result<DateOrDatetime, ValueError>)
        ensures
            r is Ok <==> DateOrDatetime::parses(v@),
            r matches Ok(x) ==> DateOrDatetime::accepts(v@, x) && x.wf(),
    {
        match Date::try_from(v) {
            Ok(d) => Ok(DateOrDatetime::Date(d)),
            Err(_) => Ok(DateOrDatetime::DateTime(DateTime::try_from(v)?)),
        }
    }

    /// Reads a floating date-time in the zone `tz` names; a date, or a
    /// date-time already in UTC, stays as it is.
    pub fn resolve_tz(&self, tz: Option<&str>) -> (r: DateOrDatetime)
        ensures
            r == date_or_datetime_resolved(*self, match tz {
                Some(t) => Some(t@),
                None => None,
            }),
            r.wf(),
    {
        match self {
            DateOrDatetime::Date(d) => {
                proof {
                    use_type_invariant(d);
                }
                DateOrDatetime::Date(*d)
            },
            DateOrDatetime::DateTime(d) => DateOrDatetime::DateTime(d.resolve_tz(tz)),
        }
    }
}

/// A date stays as it is; a date-time is read in the zone `tz`.
pub open spec fn date_or_datetime_resolved(x: DateOrDatetime, tz: Option<Seq<char>>) -> DateOrDatetime {
    match x {
        DateOrDatetime::Date(d) => DateOrDatetime::Date(d),
        DateOrDatetime::DateTime(d) => DateOrDatetime::DateTime(resolved(d, tz)),
    }
}

impl Ical for DateOrDatetime {
    open spec fn ical(&self) -> Seq<u8> {
        match self {
            DateOrDatetime::Date(d) => d.ical(),
            DateOrDatetime::DateTime(d) => d.ical(),
        }
    }

    proof fn lemma_ical_valid(&self) {
        match self {
            DateOrDatetime::Date(d) => d.lemma_ical_valid(),
            DateOrDatetime::DateTime(d) => d.lemma_ical_valid(),
        }
    }

    fn write_to(&self, out: &mut Vec<u8>) {
        match self {
            DateOrDatetime::Date(d) => d.write_to(out),
            DateOrDatetime::DateTime(d) => d.write_to(out),
        }
    }
}

} // verus!
