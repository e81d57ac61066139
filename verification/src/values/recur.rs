//! RECUR values (RFC 5545 §3.3.10): the rule by which a component recurs.

use vstd::prelude::*;
use vstd::string::StringSliceAdditionalSpecFns;
use vstd::utf8::valid_utf8;
use crate::bytes::{
    lemma_ascii_valid, append_str, copy_range, eq_str, find_byte, first_byte, joined, lemma_ascii_seq_valid,
    lemma_joined_push, lemma_joined_valid, pieces, split_all, to_upper, upper, vec_views, COMMA,
    EQUALS, HYPHEN, PLUS, SEMICOLON,
};
use crate::values::{
    decimal, integer_of, integer_text, is_digit_byte, lemma_decimal_digits, malformed_value, write_decimal, Ical, Integer,
    ValueError,
};
use crate::values::datetime::DateOrDatetime;

verus! {


/// How often a rule repeats: its `FREQ`.
#[derive(Debug, Clone, Copy, PartialEq, Eq, Structural)]
pub enum Frequency {
    /// Every second.
    Secondly,
    /// Every minute.
    Minutely,
    /// Every hour.
    Hourly,
    /// Every day.
    Daily,
    /// Every week.
    Weekly,
    /// Every month.
    Monthly,
    /// Every year.
    Yearly,
}

impl Frequency {
    /// The keyword value `v` spells, if it spells one.
    pub open spec fn keyword(v: Seq<u8>) -> Option<Frequency> {
        if v == "SECONDLY".spec_bytes() {
            Some(Frequency::Secondly)
        } else if v == "MINUTELY".spec_bytes() {
            Some(Frequency::Minutely)
        } else if v == "HOURLY".spec_bytes() {
            Some(Frequency::Hourly)
        } else if v == "DAILY".spec_bytes() {
            Some(Frequency::Daily)
        } else if v == "WEEKLY".spec_bytes() {
            Some(Frequency::Weekly)
        } else if v == "MONTHLY".spec_bytes() {
            Some(Frequency::Monthly)
        } else if v == "YEARLY".spec_bytes() {
            Some(Frequency::Yearly)
        } else {
            None
        }
    }

    /// A keyword is written back as itself: whatever keyword value `v`
    /// reads as is written as `v`.
    pub proof fn lemma_keyword_written(v: Seq<u8>, p: Frequency)
        requires
            Frequency::keyword(v) == Some(p),
        ensures
            p.ical() == v,
    {
    }

    /// Whether `v` parses: only the keywords do.
    pub open spec fn parses(v: Seq<u8>) -> bool {
        Frequency::keyword(v) is Some
    }

    /// Whether `p` is what `v` parses to.
    pub open spec fn accepts(v: Seq<u8>, p: Frequency) -> bool {
        Frequency::keyword(v) == Some(p)
    }

    /// Parses the parameter value.
    pub fn try_from(v: &[u8]) -> (r: Result<Frequency, ValueError>)
        ensures
            r is Ok <==> Frequency::parses(v@),
            r matches Ok(p) ==> Frequency::accepts(v@, p),
            r matches Err(e) ==> e is Malformed,
    {
        if eq_str(v, "SECONDLY") {
            Ok(Frequency::Secondly)
        } else if eq_str(v, "MINUTELY") {
            Ok(Frequency::Minutely)
        } else if eq_str(v, "HOURLY") {
            Ok(Frequency::Hourly)
        } else if eq_str(v, "DAILY") {
            Ok(Frequency::Daily)
        } else if eq_str(v, "WEEKLY") {
            Ok(Frequency::Weekly)
        } else if eq_str(v, "MONTHLY") {
            Ok(Frequency::Monthly)
        } else if eq_str(v, "YEARLY") {
            Ok(Frequency::Yearly)
        } else {
            Err(malformed_value("a FREQ value", v))
        }
    }
}

impl Ical for Frequency {
    open spec fn ical(&self) -> Seq<u8> {
        match self {
            Frequency::Secondly => "SECONDLY".spec_bytes(),
            Frequency::Minutely => "MINUTELY".spec_bytes(),
            Frequency::Hourly => "HOURLY".spec_bytes(),
            Frequency::Daily => "DAILY".spec_bytes(),
            Frequency::Weekly => "WEEKLY".spec_bytes(),
            Frequency::Monthly => "MONTHLY".spec_bytes(),
            Frequency::Yearly => "YEARLY".spec_bytes(),
        }
    }

    proof fn lemma_ical_valid(&self) {
        broadcast use vstd::utf8::encode_utf8_valid_utf8;

    }

    fn write_to(&self, out: &mut Vec<u8>) {
        match self {
            Frequency::Secondly => append_str(out, "SECONDLY"),
            Frequency::Minutely => append_str(out, "MINUTELY"),
            Frequency::Hourly => append_str(out, "HOURLY"),
            Frequency::Daily => append_str(out, "DAILY"),
            Frequency::Weekly => append_str(out, "WEEKLY"),
            Frequency::Monthly => append_str(out, "MONTHLY"),
            Frequency::Yearly => append_str(out, "YEARLY"),
        }
    }
}

/// A day of the week.
#[derive(Debug, Clone, Copy, PartialEq, Eq, Structural)]
pub enum Weekday {
    /// Sunday.
    Su,
    /// Monday.
    Mo,
    /// Tuesday.
    Tu,
    /// Wednesday.
    We,
    /// Thursday.
    Th,
    /// Friday.
    Fr,
    /// Saturday.
    Sa,
}

impl Weekday {
    /// The keyword value `v` spells, if it spells one.
    pub open spec fn keyword(v: Seq<u8>) -> Option<Weekday> {
        if v == "SU".spec_bytes() {
            Some(Weekday::Su)
        } else if v == "MO".spec_bytes() {
            Some(Weekday::Mo)
        } else if v == "TU".spec_bytes() {
            Some(Weekday::Tu)
        } else if v == "WE".spec_bytes() {
            Some(Weekday::We)
        } else if v == "TH".spec_bytes() {
            Some(Weekday::Th)
        } else if v == "FR".spec_bytes() {
            Some(Weekday::Fr)
        } else if v == "SA".spec_bytes() {
            Some(Weekday::Sa)
        } else {
            None
        }
    }

    /// A keyword is written back as itself: whatever keyword value `v`
    /// reads as is written as `v`.
    pub proof fn lemma_keyword_written(v: Seq<u8>, p: Weekday)
        requires
            Weekday::keyword(v) == Some(p),
        ensures
            p.ical() == v,
    {
    }

    /// Whether `v` parses: only the keywords do.
    pub open spec fn parses(v: Seq<u8>) -> bool {
        Weekday::keyword(v) is Some
    }

    /// Whether `p` is what `v` parses to.
    pub open spec fn accepts(v: Seq<u8>, p: Weekday) -> bool {
        Weekday::keyword(v) == Some(p)
    }

    /// Parses the parameter value.
    pub fn try_from(v: &[u8]) -> (r: Result<Weekday, ValueError>)
        ensures
            r is Ok <==> Weekday::parses(v@),
            r matches Ok(p) ==> Weekday::accepts(v@, p),
            r matches Err(e) ==> e is Malformed,
    {
        if eq_str(v, "SU") {
            Ok(Weekday::Su)
        } else if eq_str(v, "MO") {
            Ok(Weekday::Mo)
        } else if eq_str(v, "TU") {
            Ok(Weekday::Tu)
        } else if eq_str(v, "WE") {
            Ok(Weekday::We)
        } else if eq_str(v, "TH") {
            Ok(Weekday::Th)
        } else if eq_str(v, "FR") {
            Ok(Weekday::Fr)
        } else if eq_str(v, "SA") {
            Ok(Weekday::Sa)
        } else {
            Err(malformed_value("a weekday", v))
        }
    }
}

impl Ical for Weekday {
    open spec fn ical(&self) -> Seq<u8> {
        match self {
            Weekday::Su => "SU".spec_bytes(),
            Weekday::Mo => "MO".spec_bytes(),
            Weekday::Tu => "TU".spec_bytes(),
            Weekday::We => "WE".spec_bytes(),
            Weekday::Th => "TH".spec_bytes(),
            Weekday::Fr => "FR".spec_bytes(),
            Weekday::Sa => "SA".spec_bytes(),
        }
    }

    proof fn lemma_ical_valid(&self) {
        broadcast use vstd::utf8::encode_utf8_valid_utf8;

    }

    fn write_to(&self, out: &mut Vec<u8>) {
        match self {
            Weekday::Su => append_str(out, "SU"),
            Weekday::Mo => append_str(out, "MO"),
            Weekday::Tu => append_str(out, "TU"),
            Weekday::We => append_str(out, "WE"),
            Weekday::Th => append_str(out, "TH"),
            Weekday::Fr => append_str(out, "FR"),
            Weekday::Sa => append_str(out, "SA"),
        }
    }
}

/// The parts a rule is made of, by name.
#[derive(Debug, Clone, Copy, PartialEq, Eq, Structural)]
pub enum RulePart {
    /// `FREQ`.
    Freq,
    /// `UNTIL`.
    Until,
    /// `COUNT`.
    Count,
    /// `INTERVAL`.
    Interval,
    /// `BYSECOND`.
    BySecond,
    /// `BYMINUTE`.
    ByMinute,
    /// `BYHOUR`.
    ByHour,
    /// `BYDAY`.
    ByDay,
    /// `BYMONTHDAY`.
    ByMonthDay,
    /// `BYYEARDAY`.
    ByYearDay,
    /// `BYWEEKNO`.
    ByWeekNo,
    /// `BYMONTH`.
    ByMonth,
    /// `BYSETPOS`.
    BySetPos,
    /// `WKST`.
    Wkst,
}

/// The rule part a name (upper-cased) stands for.
pub open spec fn rule_kind(n: Seq<u8>) -> Option<RulePart> {
        if n == "FREQ".spec_bytes() {
            Some(RulePart::Freq)
        } else if n == "UNTIL".spec_bytes() {
            Some(RulePart::Until)
        } else if n == "COUNT".spec_bytes() {
            Some(RulePart::Count)
        } else if n == "INTERVAL".spec_bytes() {
            Some(RulePart::Interval)
        } else if n == "BYSECOND".spec_bytes() {
            Some(RulePart::BySecond)
        } else if n == "BYMINUTE".spec_bytes() {
            Some(RulePart::ByMinute)
        } else if n == "BYHOUR".spec_bytes() {
            Some(RulePart::ByHour)
        } else if n == "BYDAY".spec_bytes() {
            Some(RulePart::ByDay)
        } else if n == "BYMONTHDAY".spec_bytes() {
            Some(RulePart::ByMonthDay)
        } else if n == "BYYEARDAY".spec_bytes() {
            Some(RulePart::ByYearDay)
        } else if n == "BYWEEKNO".spec_bytes() {
            Some(RulePart::ByWeekNo)
        } else if n == "BYMONTH".spec_bytes() {
            Some(RulePart::ByMonth)
        } else if n == "BYSETPOS".spec_bytes() {
            Some(RulePart::BySetPos)
        } else if n == "WKST".spec_bytes() {
            Some(RulePart::Wkst)
        } else {
            None
        }
    }

fn kind_of(n: &[u8]) -> (r: Option<RulePart>)
    ensures
        r == rule_kind(n@),
{
    if eq_str(n, "FREQ") {
        Some(RulePart::Freq)
    } else if eq_str(n, "UNTIL") {
        Some(RulePart::Until)
    } else if eq_str(n, "COUNT") {
        Some(RulePart::Count)
    } else if eq_str(n, "INTERVAL") {
        Some(RulePart::Interval)
    } else if eq_str(n, "BYSECOND") {
        Some(RulePart::BySecond)
    } else if eq_str(n, "BYMINUTE") {
        Some(RulePart::ByMinute)
    } else if eq_str(n, "BYHOUR") {
        Some(RulePart::ByHour)
    } else if eq_str(n, "BYDAY") {
        Some(RulePart::ByDay)
    } else if eq_str(n, "BYMONTHDAY") {
        Some(RulePart::ByMonthDay)
    } else if eq_str(n, "BYYEARDAY") {
        Some(RulePart::ByYearDay)
    } else if eq_str(n, "BYWEEKNO") {
        Some(RulePart::ByWeekNo)
    } else if eq_str(n, "BYMONTH") {
        Some(RulePart::ByMonth)
    } else if eq_str(n, "BYSETPOS") {
        Some(RulePart::BySetPos)
    } else if eq_str(n, "WKST") {
        Some(RulePart::Wkst)
    } else {
        None
    }
}

/// What a list of numbers in a rule part may hold: whether an item may
/// carry a sign, how many digits it may have, and the range of its
/// magnitude.
pub open spec fn list_shape(k: RulePart) -> (bool, int, int, int) {
    match k {
        RulePart::BySecond => (false, 2, 0, 60),
        RulePart::ByMinute => (false, 2, 0, 59),
        RulePart::ByHour => (false, 2, 0, 23),
        RulePart::ByMonthDay => (true, 2, 1, 31),
        RulePart::ByYearDay => (true, 3, 1, 366),
        RulePart::ByWeekNo => (true, 2, 1, 53),
        RulePart::ByMonth => (false, 2, 1, 12),
        RulePart::BySetPos => (true, 3, 1, 366),
        _ => (false, 0, 0, 0),
    }
}

fn shape_of(k: RulePart) -> (r: (bool, usize, i32, i32))
    ensures
        r.0 == list_shape(k).0,
        r.1 == list_shape(k).1,
        r.2 == list_shape(k).2,
        r.3 == list_shape(k).3,
        r.1 <= 3,
        0 <= r.2 <= r.3 <= 366,
{
    match k {
        RulePart::BySecond => (false, 2, 0, 60),
        RulePart::ByMinute => (false, 2, 0, 59),
        RulePart::ByHour => (false, 2, 0, 23),
        RulePart::ByMonthDay => (true, 2, 1, 31),
        RulePart::ByYearDay => (true, 3, 1, 366),
        RulePart::ByWeekNo => (true, 2, 1, 53),
        RulePart::ByMonth => (false, 2, 1, 12),
        RulePart::BySetPos => (true, 3, 1, 366),
        _ => (false, 0, 0, 0),
    }
}
/// The magnitude of `n`.
pub open spec fn magn(n: int) -> int {
    if n < 0 {
        -n
    } else {
        n
    }
}

/// A number in a rule part: a sign only where `signed` allows one, at most
/// `width` digits, and a magnitude from `lo` to `hi`.
pub open spec fn rule_num(v: Seq<u8>, signed: bool, width: int, lo: int, hi: int) -> Option<int> {
    let has_sign = v.len() > 0 && (v[0] == HYPHEN || v[0] == PLUS);
    let digits = if has_sign {
        v.len() - 1
    } else {
        v.len() as int
    };
    match integer_of(v) {
        Some(n) => if (signed || !has_sign) && digits <= width && lo <= magn(n) <= hi {
            Some(n)
        } else {
            None
        },
        None => None,
    }
}

fn read_num(v: &[u8], signed: bool, width: usize, lo: i32, hi: i32) -> (r: Option<i32>)
    requires
        0 <= lo <= hi <= i32::MAX,
    ensures
        match rule_num(v@, signed, width as int, lo as int, hi as int) {
            Some(n) => r == Some(n as i32),
            None => r is None,
        },
{
    let has_sign = v.len() > 0 && (v[0] == HYPHEN || v[0] == PLUS);
    let digits = if has_sign {
        v.len() - 1
    } else {
        v.len()
    };
    if (!signed && has_sign) || digits > width {
        return None;
    }
    match Integer::try_from(v) {
        Ok(x) => {
            let n = x.value();
            let m: i64 = if n < 0 {
                0i64 - (n as i64)
            } else {
                n as i64
            };
            if (lo as i64) <= m && m <= (hi as i64) {
                Some(n)
            } else {
                None
            }
        },
        Err(_) => None,
    }
}

/// A list of numbers, each as [`rule_num`] reads it.
pub open spec fn num_list(ps: Seq<Seq<u8>>, signed: bool, width: int, lo: int, hi: int) -> Option<
    Seq<int>,
>
    decreases ps.len(),
{
    if ps.len() == 0 {
        Some(seq![])
    } else {
        match (num_list(ps.drop_last(), signed, width, lo, hi), rule_num(ps.last(), signed, width, lo, hi)) {
            (Some(a), Some(n)) => Some(a.push(n)),
            _ => None,
        }
    }
}

/// Numbers as integers.
pub open spec fn ints(v: Seq<i32>) -> Seq<int> {
    v.map_values(|n: i32| n as int)
}

fn read_list(v: &[u8], signed: bool, width: usize, lo: i32, hi: i32) -> (r: Option<Vec<i32>>)
    requires
        0 <= lo <= hi <= i32::MAX,
    ensures
        match num_list(pieces(v@, COMMA), signed, width as int, lo as int, hi as int) {
            Some(s) => r matches Some(x) && ints(x@) == s,
            None => r is None,
        },
{
    let items = split_all(v, COMMA);
    let ghost ps = pieces(v@, COMMA);
    let mut out: Vec<i32> = Vec::new();
    let mut i: usize = 0;
    while i < items.len()
        invariant
            ps == pieces(v@, COMMA),
            vec_views(items@) == ps,
            i <= items.len(),
            num_list(ps.take(i as int), signed, width as int, lo as int, hi as int) == Some(ints(out@)),
            0 <= lo <= hi <= i32::MAX,
        decreases items.len() - i,
    {
        assert(ps.take(i + 1).drop_last() =~= ps.take(i as int));
        assert(ps.take(i + 1).last() == items@[i as int]@);
        match read_num(items[i].as_slice(), signed, width, lo, hi) {
            Some(n) => {
                let ghost before = out@;
                out.push(n);
                assert(ints(out@) =~= ints(before).push(n as int));
            },
            None => {
                proof {
                    assert(num_list(ps.take(i + 1), signed, width as int, lo as int, hi as int) is None);
                    lemma_num_list_prefix(ps, (i + 1) as nat, signed, width as int, lo as int, hi as int);
                }
                return None;
            },
        }
        i += 1;
    }
    assert(ps.take(items.len() as int) =~= ps);
    Some(out)
}

proof fn lemma_num_list_prefix(ps: Seq<Seq<u8>>, m: nat, signed: bool, width: int, lo: int, hi: int)
    requires
        m <= ps.len(),
        num_list(ps.take(m as int), signed, width, lo, hi) is None,
    ensures
        num_list(ps, signed, width, lo, hi) is None,
    decreases ps.len() - m,
{
    if m < ps.len() {
        assert(ps.take(m + 1int).drop_last() =~= ps.take(m as int));
        lemma_num_list_prefix(ps, m + 1, signed, width, lo, hi);
    } else {
        assert(ps.take(m as int) =~= ps);
    }
}

/// A weekday in a `BYDAY` list, with the occurrence within the month or
/// year it may be limited to (`1MO` is the first Monday, `-1SU` the last
/// Sunday).
#[derive(Debug, Clone, Copy, PartialEq, Eq, Structural)]
pub struct WeekdayNum {
    ordinal: Option<i8>,
    weekday: Weekday,
}

/// An occurrence as an integer.
pub open spec fn ordinal_view(o: Option<i8>) -> Option<int> {
    match o {
        Some(n) => Some(n as int),
        None => None,
    }
}

impl WeekdayNum {
    /// The occurrence and the day, as plain values.
    pub closed spec fn spec_view(&self) -> (Option<int>, Weekday) {
        (ordinal_view(self.ordinal), self.weekday)
    }

    /// Which occurrence, counted from the start (or from the end when
    /// negative); `None` for every one.
    pub fn ordinal(&self) -> (r: Option<i8>)
        ensures
            ordinal_view(r) == self.spec_view().0,
    {
        self.ordinal
    }

    /// The day of the week.
    pub fn weekday(&self) -> (r: Weekday)
        ensures
            r == self.spec_view().1,
    {
        self.weekday
    }
}

/// A `BYDAY` item: an optional signed occurrence from 1 to 53, then a
/// weekday.
pub open spec fn weekday_num(v: Seq<u8>) -> Option<(Option<int>, Weekday)> {
    if v.len() < 2 {
        None
    } else {
        match Weekday::keyword(v.skip(v.len() - 2)) {
            Some(d) => if v.len() == 2 {
                Some((None, d))
            } else {
                match rule_num(v.take(v.len() - 2), true, 2, 1, 53) {
                    Some(n) => Some((Some(n), d)),
                    None => None,
                }
            },
            None => None,
        }
    }
}

fn read_weekday_num(v: &[u8]) -> (r: Option<WeekdayNum>)
    ensures
        match weekday_num(v@) {
            Some(x) => r matches Some(w) && w.spec_view() == x,
            None => r is None,
        },
{
    let n = v.len();
    if n < 2 {
        return None;
    }
    let day = copy_range(v, n - 2, n);
    assert(day@ =~= v@.skip(n - 2));
    let d = match Weekday::try_from(day.as_slice()) {
        Ok(d) => d,
        Err(_) => {
            return None;
        },
    };
    if n == 2 {
        return Some(WeekdayNum { ordinal: None, weekday: d });
    }
    let head = copy_range(v, 0, n - 2);
    assert(head@ =~= v@.take(n - 2));
    match read_num(head.as_slice(), true, 2, 1, 53) {
        Some(k) => Some(WeekdayNum { ordinal: Some(k as i8), weekday: d }),
        None => None,
    }
}

/// A list of `BYDAY` items.
pub open spec fn weekday_list(ps: Seq<Seq<u8>>) -> Option<Seq<(Option<int>, Weekday)>>
    decreases ps.len(),
{
    if ps.len() == 0 {
        Some(seq![])
    } else {
        match (weekday_list(ps.drop_last()), weekday_num(ps.last())) {
            (Some(a), Some(x)) => Some(a.push(x)),
            _ => None,
        }
    }
}

/// The items of a `BYDAY` list as plain values.
pub open spec fn weekday_views(v: Seq<WeekdayNum>) -> Seq<(Option<int>, Weekday)> {
    v.map_values(|w: WeekdayNum| w.spec_view())
}

proof fn lemma_weekday_list_prefix(ps: Seq<Seq<u8>>, m: nat)
    requires
        m <= ps.len(),
        weekday_list(ps.take(m as int)) is None,
    ensures
        weekday_list(ps) is None,
    decreases ps.len() - m,
{
    if m < ps.len() {
        assert(ps.take(m + 1int).drop_last() =~= ps.take(m as int));
        lemma_weekday_list_prefix(ps, m + 1);
    } else {
        assert(ps.take(m as int) =~= ps);
    }
}

fn read_weekday_list(v: &[u8]) -> (r: Option<Vec<WeekdayNum>>)
    ensures
        match weekday_list(pieces(v@, COMMA)) {
            Some(s) => r matches Some(x) && weekday_views(x@) == s,
            None => r is None,
        },
{
    let items = split_all(v, COMMA);
    let ghost ps = pieces(v@, COMMA);
    let mut out: Vec<WeekdayNum> = Vec::new();
    let mut i: usize = 0;
    while i < items.len()
        invariant
            ps == pieces(v@, COMMA),
            vec_views(items@) == ps,
            i <= items.len(),
            weekday_list(ps.take(i as int)) == Some(weekday_views(out@)),
        decreases items.len() - i,
    {
        assert(ps.take(i + 1).drop_last() =~= ps.take(i as int));
        assert(ps.take(i + 1).last() == items@[i as int]@);
        match read_weekday_num(items[i].as_slice()) {
            Some(w) => {
                let ghost before = out@;
                out.push(w);
                assert(weekday_views(out@) =~= weekday_views(before).push(w.spec_view()));
            },
            None => {
                proof {
                    assert(weekday_list(ps.take(i + 1)) is None);
                    lemma_weekday_list_prefix(ps, (i + 1) as nat);
                }
                return None;
            },
        }
        i += 1;
    }
    assert(ps.take(items.len() as int) =~= ps);
    Some(out)
}
/// Whether `w` is a value of the rule part `k`.
pub open spec fn value_ok(k: RulePart, w: Seq<u8>) -> bool {
    match k {
        RulePart::Freq => Frequency::keyword(w) is Some,
        RulePart::Until => DateOrDatetime::parses(w),
        RulePart::Count => rule_num(w, false, 10, 0, i32::MAX as int) is Some,
        RulePart::Interval => rule_num(w, false, 10, 1, i32::MAX as int) is Some,
        RulePart::ByDay => weekday_list(pieces(w, COMMA)) is Some,
        RulePart::Wkst => Weekday::keyword(w) is Some,
        _ => num_list(
            pieces(w, COMMA),
            list_shape(k).0,
            list_shape(k).1,
            list_shape(k).2,
            list_shape(k).3,
        ) is Some,
    }
}

/// The rule part a piece of a rule names: the text before its `=`,
/// upper-cased.
pub open spec fn part_kind(p: Seq<u8>) -> Option<RulePart> {
    match first_byte(p, EQUALS) {
        Some(e) => rule_kind(upper(p.take(e))),
        None => None,
    }
}

/// The value of a piece of a rule: the text after its first `=`.
pub open spec fn part_value(p: Seq<u8>) -> Seq<u8> {
    match first_byte(p, EQUALS) {
        Some(e) => p.skip(e + 1),
        None => seq![],
    }
}

/// Whether a piece of a rule names a rule part and holds one of its
/// values.
pub open spec fn part_ok(p: Seq<u8>) -> bool {
    part_kind(p) matches Some(k) && value_ok(k, part_value(p))
}

/// The value of the last of the first `n` pieces `ps` that names `k`.
pub open spec fn rule_at(ps: Seq<Seq<u8>>, n: int, k: RulePart) -> Option<Seq<u8>>
    decreases n,
{
    if n <= 0 {
        None
    } else if part_kind(ps[n - 1]) == Some(k) {
        Some(part_value(ps[n - 1]))
    } else {
        rule_at(ps, n - 1, k)
    }
}

proof fn lemma_rule_at_found(ps: Seq<Seq<u8>>, n: int, k: RulePart)
    requires
        rule_at(ps, n, k) is Some,
    ensures
        exists|i: int| 0 <= i < n && part_kind(#[trigger] ps[i]) == Some(k),
    decreases n,
{
    if part_kind(ps[n - 1]) == Some(k) {
        assert(part_kind(ps[n - 1]) == Some(k));
    } else {
        lemma_rule_at_found(ps, n - 1, k);
    }
}

/// A RECUR value: the rule by which a component repeats.
#[derive(Debug)]
pub struct Recur {
    freq: Frequency,
    until: Option<DateOrDatetime>,
    count: Option<u32>,
    interval: Option<u32>,
    by_second: Vec<i32>,
    by_minute: Vec<i32>,
    by_hour: Vec<i32>,
    by_month_day: Vec<i32>,
    by_year_day: Vec<i32>,
    by_week_no: Vec<i32>,
    by_month: Vec<i32>,
    by_set_pos: Vec<i32>,
    by_day: Vec<WeekdayNum>,
    wkst: Option<Weekday>,
}

impl Recur {
    /// `FREQ`.
    pub closed spec fn spec_freq(&self) -> Frequency {
        self.freq
    }

    /// `UNTIL`.
    pub closed spec fn spec_until(&self) -> Option<DateOrDatetime> {
        self.until
    }

    /// `COUNT`.
    pub closed spec fn spec_count(&self) -> Option<u32> {
        self.count
    }

    /// `INTERVAL`.
    pub closed spec fn spec_interval(&self) -> Option<u32> {
        self.interval
    }

    /// The numbers of the list part `k`; empty when it is absent.
    pub closed spec fn spec_list(&self, k: RulePart) -> Seq<int> {
        match k {
            RulePart::BySecond => ints(self.by_second@),
            RulePart::ByMinute => ints(self.by_minute@),
            RulePart::ByHour => ints(self.by_hour@),
            RulePart::ByMonthDay => ints(self.by_month_day@),
            RulePart::ByYearDay => ints(self.by_year_day@),
            RulePart::ByWeekNo => ints(self.by_week_no@),
            RulePart::ByMonth => ints(self.by_month@),
            RulePart::BySetPos => ints(self.by_set_pos@),
            _ => seq![],
        }
    }

    /// `BYDAY`; empty when it is absent.
    pub closed spec fn spec_by_day(&self) -> Seq<(Option<int>, Weekday)> {
        weekday_views(self.by_day@)
    }

    /// `WKST`.
    pub closed spec fn spec_wkst(&self) -> Option<Weekday> {
        self.wkst
    }

    /// Whether the rule part `k` of this rule is what the value `w` of a
    /// part named `k` gives, `None` where there is no such part.
    pub open spec fn holds(&self, k: RulePart, w: Option<Seq<u8>>) -> bool {
        match k {
            RulePart::Freq => w matches Some(x) && Frequency::keyword(x) == Some(self.spec_freq()),
            RulePart::Until => match w {
                Some(x) => self.spec_until() matches Some(d) && DateOrDatetime::accepts(x, d),
                None => self.spec_until() is None,
            },
            RulePart::Count => match w {
                Some(x) => self.spec_count() matches Some(c) && rule_num(x, false, 10, 0, i32::MAX as int)
                    == Some(c as int),
                None => self.spec_count() is None,
            },
            RulePart::Interval => match w {
                Some(x) => self.spec_interval() matches Some(c) && rule_num(x, false, 10, 1, i32::MAX as int)
                    == Some(c as int),
                None => self.spec_interval() is None,
            },
            RulePart::ByDay => match w {
                Some(x) => weekday_list(pieces(x, COMMA)) == Some(self.spec_by_day()),
                None => self.spec_by_day().len() == 0,
            },
            RulePart::Wkst => match w {
                Some(x) => self.spec_wkst() matches Some(d) && Weekday::keyword(x) == Some(d),
                None => self.spec_wkst() is None,
            },
            _ => match w {
                Some(x) => num_list(
                    pieces(x, COMMA),
                    list_shape(k).0,
                    list_shape(k).1,
                    list_shape(k).2,
                    list_shape(k).3,
                ) == Some(self.spec_list(k)),
                None => self.spec_list(k).len() == 0,
            },
        }
    }

    /// Whether `v` parses as a rule: `;`-separated parts, each a known name,
    /// `=` and a value of that part, no part twice, `FREQ` present, and not
    /// both `UNTIL` and `COUNT`.
    pub open spec fn parses(v: Seq<u8>) -> bool {
        let ps = pieces(v, SEMICOLON);
        let n = ps.len() as int;
        &&& forall|i: int| 0 <= i < n ==> part_ok(#[trigger] ps[i])
        &&& forall|i: int, j: int|
            0 <= i < j < n ==> part_kind(#[trigger] ps[i]) != part_kind(#[trigger] ps[j])
        &&& rule_at(ps, n, RulePart::Freq) is Some
        &&& !(rule_at(ps, n, RulePart::Until) is Some && rule_at(ps, n, RulePart::Count) is Some)
    }

    /// Whether `r` is what `v` parses to: each of its parts is what the
    /// part of that name gives.
    pub open spec fn accepts(v: Seq<u8>, r: Recur) -> bool {
        let ps = pieces(v, SEMICOLON);
        forall|k: RulePart| #[trigger] r.holds(k, rule_at(ps, ps.len() as int, k))
    }

    /// `FREQ`.
    pub fn freq(&self) -> (r: Frequency)
        ensures
            r == self.spec_freq(),
    {
        self.freq
    }

    /// `UNTIL`, if any.
    pub fn until(&self) -> (r: Option<&DateOrDatetime>)
        ensures
            match r {
                Some(d) => self.spec_until() == Some(*d),
                None => self.spec_until() is None,
            },
    {
        match &self.until {
            Some(d) => Some(d),
            None => None,
        }
    }

    /// `COUNT`, if any.
    pub fn count(&self) -> (r: Option<u32>)
        ensures
            r == self.spec_count(),
    {
        self.count
    }

    /// `INTERVAL`, if any.
    pub fn interval(&self) -> (r: Option<u32>)
        ensures
            r == self.spec_interval(),
    {
        self.interval
    }

    /// `BYSECOND`; empty when absent.
    pub fn by_second(&self) -> (r: &[i32])
        ensures
            ints(r@) == self.spec_list(RulePart::BySecond),
    {
        self.by_second.as_slice()
    }

    /// `BYMINUTE`; empty when absent.
    pub fn by_minute(&self) -> (r: &[i32])
        ensures
            ints(r@) == self.spec_list(RulePart::ByMinute),
    {
        self.by_minute.as_slice()
    }

    /// `BYHOUR`; empty when absent.
    pub fn by_hour(&self) -> (r: &[i32])
        ensures
            ints(r@) == self.spec_list(RulePart::ByHour),
    {
        self.by_hour.as_slice()
    }

    /// `BYMONTHDAY`; empty when absent.
    pub fn by_month_day(&self) -> (r: &[i32])
        ensures
            ints(r@) == self.spec_list(RulePart::ByMonthDay),
    {
        self.by_month_day.as_slice()
    }

    /// `BYYEARDAY`; empty when absent.
    pub fn by_year_day(&self) -> (r: &[i32])
        ensures
            ints(r@) == self.spec_list(RulePart::ByYearDay),
    {
        self.by_year_day.as_slice()
    }

    /// `BYWEEKNO`; empty when absent.
    pub fn by_week_no(&self) -> (r: &[i32])
        ensures
            ints(r@) == self.spec_list(RulePart::ByWeekNo),
    {
        self.by_week_no.as_slice()
    }

    /// `BYMONTH`; empty when absent.
    pub fn by_month(&self) -> (r: &[i32])
        ensures
            ints(r@) == self.spec_list(RulePart::ByMonth),
    {
        self.by_month.as_slice()
    }

    /// `BYSETPOS`; empty when absent.
    pub fn by_set_pos(&self) -> (r: &[i32])
        ensures
            ints(r@) == self.spec_list(RulePart::BySetPos),
    {
        self.by_set_pos.as_slice()
    }

    /// `BYDAY`; empty when absent.
    pub fn by_day(&self) -> (r: &[WeekdayNum])
        ensures
            weekday_views(r@) == self.spec_by_day(),
    {
        self.by_day.as_slice()
    }

    /// `WKST`, if any.
    pub fn wkst(&self) -> (r: Option<Weekday>)
        ensures
            r == self.spec_wkst(),
    {
        self.wkst
    }

    /// Parses a rule.
    pub fn try_from(v: &[u8]) -> (r: Result<Recur, ValueError>)
        ensures
            r is Ok <==> Recur::parses(v@),
            r matches Ok(x) ==> Recur::accepts(v@, x),
    {
        let parts = split_all(v, SEMICOLON);
        let ghost ps = pieces(v@, SEMICOLON);
        let mut d = RecurDraft::new();
        let mut k: usize = 0;
        while k < parts.len()
            invariant
                ps == pieces(v@, SEMICOLON),
                vec_views(parts@) == ps,
                k <= parts.len(),
                forall|i: int| 0 <= i < k ==> part_ok(#[trigger] ps[i]),
                forall|i: int, j: int|
                    0 <= i < j < k ==> part_kind(#[trigger] ps[i]) != part_kind(#[trigger] ps[j]),
                forall|j: RulePart| #[trigger] d.draft_holds(j, rule_at(ps, k as int, j)),
            decreases parts.len() - k,
        {
            let p = parts[k].as_slice();
            assert(p@ == ps[k as int]);
            let e = match find_byte(p, EQUALS) {
                Some(e) => e,
                None => {
                    assert(!part_ok(ps[k as int]));
                    assert(ps.len() == parts.len());
                    assert(!Recur::parses(v@));
                    return Err(malformed_value("a RECUR rule part", p));
                },
            };
            let name = to_upper(copy_range(p, 0, e).as_slice());
            assert(p@.subrange(0, e as int) =~= p@.take(e as int));
            let kind = match kind_of(name.as_slice()) {
                Some(x) => x,
                None => {
                    assert(!part_ok(ps[k as int]));
                    assert(ps.len() == parts.len());
                    assert(!Recur::parses(v@));
                    return Err(malformed_value("a RECUR rule part", p));
                },
            };
            let w = copy_range(p, e + 1, p.len());
            assert(w@ =~= part_value(ps[k as int]));
            assert(part_kind(ps[k as int]) == Some(kind));
            let ghost before = d;
            assert(d.draft_holds(kind, rule_at(ps, k as int, kind)));
            match d.apply(kind, w.as_slice()) {
                Ok(()) => {},
                Err(err) => {
                    proof {
                        if value_ok(kind, w@) {
                            assert(rule_at(ps, k as int, kind) is Some);
                            lemma_rule_at_found(ps, k as int, kind);
                            let i = choose|i: int| 0 <= i < k && part_kind(#[trigger] ps[i]) == Some(kind);
                            assert(part_kind(ps[i]) == part_kind(ps[k as int]));
                        }
                    }
                    return Err(err);
                },
            }
            proof {
                assert(rule_at(ps, k as int, kind) is None);
                assert forall|i: int| 0 <= i < k implies part_kind(#[trigger] ps[i]) != Some(kind) by {
                    if part_kind(ps[i]) == Some(kind) {
                        lemma_rule_at_absent(ps, k as int, kind, i);
                    }
                }
                assert forall|j: RulePart| #[trigger] d.draft_holds(j, rule_at(ps, k + 1, j)) by {
                    if j != kind {
                        assert(before.draft_holds(j, rule_at(ps, k as int, j)));
                    }
                }
            }
            k += 1;
        }
        let ghost n = ps.len() as int;
        assert(d.draft_holds(RulePart::Freq, rule_at(ps, n, RulePart::Freq)));
        assert(d.draft_holds(RulePart::Until, rule_at(ps, n, RulePart::Until)));
        assert(d.draft_holds(RulePart::Count, rule_at(ps, n, RulePart::Count)));
        if d.freq.is_none() {
            return Err(malformed_value("a RECUR rule with FREQ", v));
        }
        if d.until.is_some() && d.count.is_some() {
            return Err(malformed_value("a RECUR rule without both UNTIL and COUNT", v));
        }
        let r = d.into_recur();
        assert forall|j: RulePart| #[trigger] r.holds(j, rule_at(ps, n, j)) by {
            assert(d.draft_holds(j, rule_at(ps, n, j)));
        }
        Ok(r)
    }
}

proof fn lemma_rule_at_absent(ps: Seq<Seq<u8>>, n: int, k: RulePart, i: int)
    requires
        0 <= i < n,
        part_kind(ps[i]) == Some(k),
    ensures
        rule_at(ps, n, k) is Some,
    decreases n,
{
    if part_kind(ps[n - 1]) != Some(k) {
        lemma_rule_at_absent(ps, n - 1, k, i);
    }
}

/// A rule as far as it has been read.
struct RecurDraft {
    freq: Option<Frequency>,
    until: Option<DateOrDatetime>,
    count: Option<u32>,
    interval: Option<u32>,
    by_second: Option<Vec<i32>>,
    by_minute: Option<Vec<i32>>,
    by_hour: Option<Vec<i32>>,
    by_month_day: Option<Vec<i32>>,
    by_year_day: Option<Vec<i32>>,
    by_week_no: Option<Vec<i32>>,
    by_month: Option<Vec<i32>>,
    by_set_pos: Option<Vec<i32>>,
    by_day: Option<Vec<WeekdayNum>>,
    wkst: Option<Weekday>,
}

impl RecurDraft {
    spec fn draft_holds(&self, k: RulePart, w: Option<Seq<u8>>) -> bool {
        match k {
            RulePart::Freq => match w {
                Some(x) => self.freq matches Some(f) && Frequency::keyword(x) == Some(f),
                None => self.freq is None,
            },
            RulePart::Until => match w {
                Some(x) => self.until matches Some(d) && DateOrDatetime::accepts(x, d),
                None => self.until is None,
            },
            RulePart::Count => match w {
                Some(x) => self.count matches Some(c) && rule_num(x, false, 10, 0, i32::MAX as int)
                    == Some(c as int),
                None => self.count is None,
            },
            RulePart::Interval => match w {
                Some(x) => self.interval matches Some(c) && rule_num(x, false, 10, 1, i32::MAX as int)
                    == Some(c as int),
                None => self.interval is None,
            },
            RulePart::ByDay => match w {
                Some(x) => self.by_day matches Some(l) && weekday_list(pieces(x, COMMA)) == Some(
                    weekday_views(l@),
                ),
                None => self.by_day is None,
            },
            RulePart::Wkst => match w {
                Some(x) => self.wkst matches Some(d) && Weekday::keyword(x) == Some(d),
                None => self.wkst is None,
            },
            RulePart::BySecond => match w {
                Some(x) => self.by_second matches Some(l) && num_list(pieces(x, COMMA), false, 2, 0, 60)
                    == Some(ints(l@)),
                None => self.by_second is None,
            },
            RulePart::ByMinute => match w {
                Some(x) => self.by_minute matches Some(l) && num_list(pieces(x, COMMA), false, 2, 0, 59)
                    == Some(ints(l@)),
                None => self.by_minute is None,
            },
            RulePart::ByHour => match w {
                Some(x) => self.by_hour matches Some(l) && num_list(pieces(x, COMMA), false, 2, 0, 23)
                    == Some(ints(l@)),
                None => self.by_hour is None,
            },
            RulePart::ByMonthDay => match w {
                Some(x) => self.by_month_day matches Some(l) && num_list(pieces(x, COMMA), true, 2, 1, 31)
                    == Some(ints(l@)),
                None => self.by_month_day is None,
            },
            RulePart::ByYearDay => match w {
                Some(x) => self.by_year_day matches Some(l) && num_list(pieces(x, COMMA), true, 3, 1, 366)
                    == Some(ints(l@)),
                None => self.by_year_day is None,
            },
            RulePart::ByWeekNo => match w {
                Some(x) => self.by_week_no matches Some(l) && num_list(pieces(x, COMMA), true, 2, 1, 53)
                    == Some(ints(l@)),
                None => self.by_week_no is None,
            },
            RulePart::ByMonth => match w {
                Some(x) => self.by_month matches Some(l) && num_list(pieces(x, COMMA), false, 2, 1, 12)
                    == Some(ints(l@)),
                None => self.by_month is None,
            },
            RulePart::BySetPos => match w {
                Some(x) => self.by_set_pos matches Some(l) && num_list(pieces(x, COMMA), true, 3, 1, 366)
                    == Some(ints(l@)),
                None => self.by_set_pos is None,
            },
        }
    }

    fn new() -> (r: RecurDraft)
        ensures
            forall|k: RulePart| #[trigger] r.draft_holds(k, None),
    {
        RecurDraft {
            freq: None,
            until: None,
            count: None,
            interval: None,
            by_second: None,
            by_minute: None,
            by_hour: None,
            by_month_day: None,
            by_year_day: None,
            by_week_no: None,
            by_month: None,
            by_set_pos: None,
            by_day: None,
            wkst: None,
        }
    }

    /// Reads the value `w` of the rule part `k`, which must not have been
    /// read before.
    fn apply(&mut self, k: RulePart, w: &[u8]) -> (r: Result<(), ValueError>)
        ensures
            r is Ok <==> (old(self).draft_holds(k, None) && value_ok(k, w@)),
            r is Ok ==> final(self).draft_holds(k, Some(w@)),
            r is Ok ==> forall|j: RulePart, x: Option<Seq<u8>>|
                j != k ==> (#[trigger] final(self).draft_holds(j, x) == old(self).draft_holds(j, x)),
    {
        match k {
            RulePart::Freq => {
                if self.freq.is_some() {
                    return Err(malformed_value("a RECUR rule part given once", w));
                }
                self.freq = Some(Frequency::try_from(w)?);
                Ok(())
            },
            RulePart::Until => {
                if self.until.is_some() {
                    return Err(malformed_value("a RECUR rule part given once", w));
                }
                self.until = Some(DateOrDatetime::try_from(w)?);
                Ok(())
            },
            RulePart::Count => {
                if self.count.is_some() {
                    return Err(malformed_value("a RECUR rule part given once", w));
                }
                match read_num(w, false, 10, 0, i32::MAX) {
                    Some(n) => {
                        self.count = Some(n as u32);
                        Ok(())
                    },
                    None => Err(malformed_value("a COUNT", w)),
                }
            },
            RulePart::Interval => {
                if self.interval.is_some() {
                    return Err(malformed_value("a RECUR rule part given once", w));
                }
                match read_num(w, false, 10, 1, i32::MAX) {
                    Some(n) => {
                        self.interval = Some(n as u32);
                        Ok(())
                    },
                    None => Err(malformed_value("an INTERVAL", w)),
                }
            },
            RulePart::ByDay => {
                if self.by_day.is_some() {
                    return Err(malformed_value("a RECUR rule part given once", w));
                }
                match read_weekday_list(w) {
                    Some(l) => {
                        self.by_day = Some(l);
                        Ok(())
                    },
                    None => Err(malformed_value("a BYDAY list", w)),
                }
            },
            RulePart::Wkst => {
                if self.wkst.is_some() {
                    return Err(malformed_value("a RECUR rule part given once", w));
                }
                self.wkst = Some(Weekday::try_from(w)?);
                Ok(())
            },
            RulePart::BySecond => {
                if self.by_second.is_some() {
                    return Err(malformed_value("a RECUR rule part given once", w));
                }
                match read_list(w, false, 2, 0, 60) {
                    Some(l) => {
                        self.by_second = Some(l);
                        Ok(())
                    },
                    None => Err(malformed_value("a list of numbers", w)),
                }
            },
            RulePart::ByMinute => {
                if self.by_minute.is_some() {
                    return Err(malformed_value("a RECUR rule part given once", w));
                }
                match read_list(w, false, 2, 0, 59) {
                    Some(l) => {
                        self.by_minute = Some(l);
                        Ok(())
                    },
                    None => Err(malformed_value("a list of numbers", w)),
                }
            },
            RulePart::ByHour => {
                if self.by_hour.is_some() {
                    return Err(malformed_value("a RECUR rule part given once", w));
                }
                match read_list(w, false, 2, 0, 23) {
                    Some(l) => {
                        self.by_hour = Some(l);
                        Ok(())
                    },
                    None => Err(malformed_value("a list of numbers", w)),
                }
            },
            RulePart::ByMonthDay => {
                if self.by_month_day.is_some() {
                    return Err(malformed_value("a RECUR rule part given once", w));
                }
                match read_list(w, true, 2, 1, 31) {
                    Some(l) => {
                        self.by_month_day = Some(l);
                        Ok(())
                    },
                    None => Err(malformed_value("a list of numbers", w)),
                }
            },
            RulePart::ByYearDay => {
                if self.by_year_day.is_some() {
                    return Err(malformed_value("a RECUR rule part given once", w));
                }
                match read_list(w, true, 3, 1, 366) {
                    Some(l) => {
                        self.by_year_day = Some(l);
                        Ok(())
                    },
                    None => Err(malformed_value("a list of numbers", w)),
                }
            },
            RulePart::ByWeekNo => {
                if self.by_week_no.is_some() {
                    return Err(malformed_value("a RECUR rule part given once", w));
                }
                match read_list(w, true, 2, 1, 53) {
                    Some(l) => {
                        self.by_week_no = Some(l);
                        Ok(())
                    },
                    None => Err(malformed_value("a list of numbers", w)),
                }
            },
            RulePart::ByMonth => {
                if self.by_month.is_some() {
                    return Err(malformed_value("a RECUR rule part given once", w));
                }
                match read_list(w, false, 2, 1, 12) {
                    Some(l) => {
                        self.by_month = Some(l);
                        Ok(())
                    },
                    None => Err(malformed_value("a list of numbers", w)),
                }
            },
            RulePart::BySetPos => {
                if self.by_set_pos.is_some() {
                    return Err(malformed_value("a RECUR rule part given once", w));
                }
                match read_list(w, true, 3, 1, 366) {
                    Some(l) => {
                        self.by_set_pos = Some(l);
                        Ok(())
                    },
                    None => Err(malformed_value("a list of numbers", w)),
                }
            },
        }
    }

    fn into_recur(self) -> (r: Recur)
        requires
            self.freq is Some,
        ensures
            forall|k: RulePart, x: Option<Seq<u8>>| self.draft_holds(k, x) ==> #[trigger] r.holds(k, x),
    {
        let ghost d = self;
        let r = Recur {
            freq: self.freq.unwrap(),
            until: self.until,
            count: self.count,
            interval: self.interval,
            by_second: match self.by_second {
                Some(l) => l,
                None => Vec::new(),
            },
            by_minute: match self.by_minute {
                Some(l) => l,
                None => Vec::new(),
            },
            by_hour: match self.by_hour {
                Some(l) => l,
                None => Vec::new(),
            },
            by_month_day: match self.by_month_day {
                Some(l) => l,
                None => Vec::new(),
            },
            by_year_day: match self.by_year_day {
                Some(l) => l,
                None => Vec::new(),
            },
            by_week_no: match self.by_week_no {
                Some(l) => l,
                None => Vec::new(),
            },
            by_month: match self.by_month {
                Some(l) => l,
                None => Vec::new(),
            },
            by_set_pos: match self.by_set_pos {
                Some(l) => l,
                None => Vec::new(),
            },
            by_day: match self.by_day {
                Some(l) => l,
                None => Vec::new(),
            },
            wkst: self.wkst,
        };
        assert forall|k: RulePart, x: Option<Seq<u8>>| d.draft_holds(k, x) implies #[trigger] r.holds(k, x) by {
        }
        r
    }
}

// ---------------------------------------------------------------------
// Writing a rule.

/// `;NAME=` and the value, when there is one.
#[verifier::opaque]
pub open spec fn opt_part(name: Seq<u8>, v: Option<Seq<u8>>) -> Seq<u8> {
    match v {
        Some(x) => seq![SEMICOLON] + name + seq![EQUALS] + x,
        None => seq![],
    }
}

/// `;NAME=` and the items joined with `,`, when there are any.
#[verifier::opaque]
pub open spec fn list_part(name: Seq<u8>, items: Seq<Seq<u8>>) -> Seq<u8> {
    if items.len() == 0 {
        seq![]
    } else {
        seq![SEMICOLON] + name + seq![EQUALS] + joined(items, COMMA)
    }
}

/// The numbers of a list, written.
pub open spec fn int_texts(s: Seq<int>) -> Seq<Seq<u8>> {
    s.map_values(|n: int| integer_text(n))
}

/// A `BYDAY` item, written: the occurrence, if any, then the day.
pub open spec fn weekday_text(x: (Option<int>, Weekday)) -> Seq<u8> {
    match x.0 {
        Some(n) => integer_text(n) + x.1.ical(),
        None => x.1.ical(),
    }
}

/// The items of a `BYDAY` list, written.
pub open spec fn weekday_texts(s: Seq<(Option<int>, Weekday)>) -> Seq<Seq<u8>> {
    s.map_values(|x: (Option<int>, Weekday)| weekday_text(x))
}

/// A count or an interval, written.
pub open spec fn number_text(c: Option<u32>) -> Option<Seq<u8>> {
    match c {
        Some(n) => Some(integer_text(n as int)),
        None => None,
    }
}

fn write_header(name: &str, out: &mut Vec<u8>)
    ensures
        final(out)@ == old(out)@ + seq![SEMICOLON] + name.spec_bytes() + seq![EQUALS],
{
    out.push(SEMICOLON);
    append_str(out, name);
    out.push(EQUALS);
    assert(out@ =~= old(out)@ + seq![SEMICOLON] + name.spec_bytes() + seq![EQUALS]);
}

fn write_number(name: &str, c: Option<u32>, out: &mut Vec<u8>)
    ensures
        final(out)@ == old(out)@ + opt_part(name.spec_bytes(), number_text(c)),
{
    reveal(opt_part);
    if let Some(n) = c {
        write_header(name, out);
        write_decimal(n as u64, out);
        assert(out@ =~= old(out)@ + opt_part(name.spec_bytes(), number_text(c)));
    }
}

fn write_int_list(name: &str, v: &[i32], out: &mut Vec<u8>)
    ensures
        final(out)@ == old(out)@ + list_part(name.spec_bytes(), int_texts(ints(v@))),
{
    reveal(list_part);
    if v.len() == 0 {
        assert(out@ =~= old(out)@ + list_part(name.spec_bytes(), int_texts(ints(v@))));
        return;
    }
    write_header(name, out);
    let ghost start = out@;
    let mut i: usize = 0;
    while i < v.len()
        invariant
            i <= v.len(),
            out@ == start + joined(int_texts(ints(v@)).take(i as int), COMMA),
        decreases v.len() - i,
    {
        let ghost items = int_texts(ints(v@));
        if i > 0 {
            out.push(COMMA);
        }
        Integer::new(v[i]).write_to(out);
        proof {
            lemma_joined_push(items.take(i as int), items[i as int], COMMA);
            assert(items.take(i + 1) =~= items.take(i as int).push(items[i as int]));
        }
        assert(out@ =~= start + joined(items.take(i + 1), COMMA));
        i += 1;
    }
    assert(int_texts(ints(v@)).take(v.len() as int) =~= int_texts(ints(v@)));
    assert(out@ =~= old(out)@ + list_part(name.spec_bytes(), int_texts(ints(v@))));
}

fn write_weekday_list(v: &[WeekdayNum], out: &mut Vec<u8>)
    ensures
        final(out)@ == old(out)@ + list_part("BYDAY".spec_bytes(), weekday_texts(weekday_views(v@))),
{
    reveal(list_part);
    if v.len() == 0 {
        assert(out@ =~= old(out)@ + list_part("BYDAY".spec_bytes(), weekday_texts(weekday_views(v@))));
        return;
    }
    write_header("BYDAY", out);
    let ghost start = out@;
    let mut i: usize = 0;
    while i < v.len()
        invariant
            i <= v.len(),
            out@ == start + joined(weekday_texts(weekday_views(v@)).take(i as int), COMMA),
        decreases v.len() - i,
    {
        let ghost items = weekday_texts(weekday_views(v@));
        if i > 0 {
            out.push(COMMA);
        }
        let ghost mid = out@;
        match v[i].ordinal {
            Some(n) => Integer::new(n as i32).write_to(out),
            None => {},
        }
        v[i].weekday.write_to(out);
        assert(out@ =~= mid + weekday_text(v@[i as int].spec_view()));
        proof {
            lemma_joined_push(items.take(i as int), items[i as int], COMMA);
            assert(items.take(i + 1) =~= items.take(i as int).push(items[i as int]));
        }
        assert(out@ =~= start + joined(items.take(i + 1), COMMA));
        i += 1;
    }
    assert(weekday_texts(weekday_views(v@)).take(v.len() as int) =~= weekday_texts(weekday_views(v@)));
    assert(out@ =~= old(out)@ + list_part("BYDAY".spec_bytes(), weekday_texts(weekday_views(v@))));
}

/// A written integer is valid UTF-8.
pub proof fn lemma_integer_text_valid(n: int)
    ensures
        valid_utf8(integer_text(n)),
{
    let t = integer_text(n);
    if n < 0 {
        lemma_decimal_digits((-n) as nat);
        assert forall|i: int| 0 <= i < t.len() implies #[trigger] t[i] < 128 by {
            if i > 0 {
                assert(t[i] == decimal((-n) as nat)[i - 1]);
                assert(is_digit_byte(decimal((-n) as nat)[i - 1]));
            }
        }
    } else {
        lemma_decimal_digits(n as nat);
        assert forall|i: int| 0 <= i < t.len() implies #[trigger] t[i] < 128 by {
            assert(is_digit_byte(decimal(n as nat)[i]));
        }
    }
    lemma_ascii_seq_valid(t);
}

proof fn lemma_opt_part_valid(name: Seq<u8>, v: Option<Seq<u8>>)
    requires
        valid_utf8(name),
        v matches Some(x) ==> valid_utf8(x),
    ensures
        valid_utf8(opt_part(name, v)),
{
    reveal(opt_part);
    lemma_ascii_valid(SEMICOLON);
    lemma_ascii_valid(EQUALS);
    match v {
        Some(x) => {
            vstd::utf8::valid_utf8_concat(seq![SEMICOLON], name);
            vstd::utf8::valid_utf8_concat(seq![SEMICOLON] + name, seq![EQUALS]);
            vstd::utf8::valid_utf8_concat(seq![SEMICOLON] + name + seq![EQUALS], x);
        },
        None => {
            lemma_ascii_seq_valid(Seq::<u8>::empty());
            assert(opt_part(name, v) =~= Seq::<u8>::empty());
        },
    }
}

proof fn lemma_list_part_valid(name: Seq<u8>, items: Seq<Seq<u8>>)
    requires
        valid_utf8(name),
        forall|i: int| 0 <= i < items.len() ==> valid_utf8(#[trigger] items[i]),
    ensures
        valid_utf8(list_part(name, items)),
{
    reveal(list_part);
    lemma_ascii_valid(SEMICOLON);
    lemma_ascii_valid(EQUALS);
    lemma_joined_valid(items, COMMA);
    if items.len() == 0 {
        lemma_ascii_seq_valid(Seq::<u8>::empty());
        assert(list_part(name, items) =~= Seq::<u8>::empty());
    } else {
        vstd::utf8::valid_utf8_concat(seq![SEMICOLON], name);
        vstd::utf8::valid_utf8_concat(seq![SEMICOLON] + name, seq![EQUALS]);
        vstd::utf8::valid_utf8_concat(seq![SEMICOLON] + name + seq![EQUALS], joined(items, COMMA));
    }
}

proof fn lemma_int_list_valid(name: Seq<u8>, s: Seq<int>)
    requires
        valid_utf8(name),
    ensures
        valid_utf8(list_part(name, int_texts(s))),
{
    assert forall|i: int| 0 <= i < int_texts(s).len() implies valid_utf8(#[trigger] int_texts(s)[i]) by {
        lemma_integer_text_valid(s[i]);
    }
    lemma_list_part_valid(name, int_texts(s));
}

proof fn lemma_weekday_list_valid(s: Seq<(Option<int>, Weekday)>)
    ensures
        valid_utf8(list_part("BYDAY".spec_bytes(), weekday_texts(s))),
{
    broadcast use vstd::utf8::encode_utf8_valid_utf8, vstd::utf8::valid_utf8_concat;

    assert forall|i: int| 0 <= i < weekday_texts(s).len() implies valid_utf8(
        #[trigger] weekday_texts(s)[i],
    ) by {
        s[i].1.lemma_ical_valid();
        if let Some(n) = s[i].0 {
            lemma_integer_text_valid(n);
        }
    }
    lemma_list_part_valid("BYDAY".spec_bytes(), weekday_texts(s));
}

impl Recur {
    /// `FREQ`, `UNTIL`, `COUNT` and `INTERVAL`.
    pub open spec fn head_text(&self) -> Seq<u8> {
        "FREQ=".spec_bytes() + self.spec_freq().ical() + opt_part(
            "UNTIL".spec_bytes(),
            match self.spec_until() {
                Some(d) => Some(d.ical()),
                None => None,
            },
        ) + opt_part("COUNT".spec_bytes(), number_text(self.spec_count())) + opt_part(
            "INTERVAL".spec_bytes(),
            number_text(self.spec_interval()),
        )
    }

    proof fn lemma_head_valid(&self)
        ensures
            valid_utf8(self.head_text()),
    {
        broadcast use vstd::utf8::encode_utf8_valid_utf8;

        self.spec_freq().lemma_ical_valid();
        match self.spec_until() {
            Some(d) => d.lemma_ical_valid(),
            None => {},
        }
        match self.spec_count() {
            Some(c) => lemma_integer_text_valid(c as int),
            None => {},
        }
        match self.spec_interval() {
            Some(c) => lemma_integer_text_valid(c as int),
            None => {},
        }
        let a = "FREQ=".spec_bytes();
        let b = self.spec_freq().ical();
        let c = opt_part("UNTIL".spec_bytes(), match self.spec_until() {
            Some(d) => Some(d.ical()),
            None => None,
        });
        let d = opt_part("COUNT".spec_bytes(), number_text(self.spec_count()));
        let e = opt_part("INTERVAL".spec_bytes(), number_text(self.spec_interval()));
        lemma_opt_part_valid("UNTIL".spec_bytes(), match self.spec_until() {
            Some(d) => Some(d.ical()),
            None => None,
        });
        lemma_opt_part_valid("COUNT".spec_bytes(), number_text(self.spec_count()));
        lemma_opt_part_valid("INTERVAL".spec_bytes(), number_text(self.spec_interval()));
        vstd::utf8::valid_utf8_concat(a, b);
        vstd::utf8::valid_utf8_concat(a + b, c);
        vstd::utf8::valid_utf8_concat(a + b + c, d);
        vstd::utf8::valid_utf8_concat(a + b + c + d, e);
    }

    proof fn lemma_lists_valid(&self)
        ensures
            valid_utf8(self.lists_text()),
    {
        broadcast use vstd::utf8::encode_utf8_valid_utf8;

        let p0 = list_part("BYSECOND".spec_bytes(), int_texts(self.spec_list(RulePart::BySecond)));
        let p1 = list_part("BYMINUTE".spec_bytes(), int_texts(self.spec_list(RulePart::ByMinute)));
        let p2 = list_part("BYHOUR".spec_bytes(), int_texts(self.spec_list(RulePart::ByHour)));
        let p3 = list_part("BYDAY".spec_bytes(), weekday_texts(self.spec_by_day()));
        let p4 = list_part("BYMONTHDAY".spec_bytes(), int_texts(self.spec_list(RulePart::ByMonthDay)));
        let p5 = list_part("BYYEARDAY".spec_bytes(), int_texts(self.spec_list(RulePart::ByYearDay)));
        let p6 = list_part("BYWEEKNO".spec_bytes(), int_texts(self.spec_list(RulePart::ByWeekNo)));
        let p7 = list_part("BYMONTH".spec_bytes(), int_texts(self.spec_list(RulePart::ByMonth)));
        let p8 = list_part("BYSETPOS".spec_bytes(), int_texts(self.spec_list(RulePart::BySetPos)));
        lemma_int_list_valid("BYSECOND".spec_bytes(), self.spec_list(RulePart::BySecond));
        lemma_int_list_valid("BYMINUTE".spec_bytes(), self.spec_list(RulePart::ByMinute));
        lemma_int_list_valid("BYHOUR".spec_bytes(), self.spec_list(RulePart::ByHour));
        lemma_weekday_list_valid(self.spec_by_day());
        lemma_int_list_valid("BYMONTHDAY".spec_bytes(), self.spec_list(RulePart::ByMonthDay));
        lemma_int_list_valid("BYYEARDAY".spec_bytes(), self.spec_list(RulePart::ByYearDay));
        lemma_int_list_valid("BYWEEKNO".spec_bytes(), self.spec_list(RulePart::ByWeekNo));
        lemma_int_list_valid("BYMONTH".spec_bytes(), self.spec_list(RulePart::ByMonth));
        lemma_int_list_valid("BYSETPOS".spec_bytes(), self.spec_list(RulePart::BySetPos));
        vstd::utf8::valid_utf8_concat(p0, p1);
        vstd::utf8::valid_utf8_concat(p0 + p1, p2);
        vstd::utf8::valid_utf8_concat(p0 + p1 + p2, p3);
        vstd::utf8::valid_utf8_concat(p0 + p1 + p2 + p3, p4);
        vstd::utf8::valid_utf8_concat(p0 + p1 + p2 + p3 + p4, p5);
        vstd::utf8::valid_utf8_concat(p0 + p1 + p2 + p3 + p4 + p5, p6);
        vstd::utf8::valid_utf8_concat(p0 + p1 + p2 + p3 + p4 + p5 + p6, p7);
        vstd::utf8::valid_utf8_concat(p0 + p1 + p2 + p3 + p4 + p5 + p6 + p7, p8);
    }

    fn write_head(&self, out: &mut Vec<u8>)
        ensures
            final(out)@ == old(out)@ + self.head_text(),
    {
        reveal(opt_part);
        append_str(out, "FREQ=");
        self.freq.write_to(out);
        let ghost mid = out@;
        if let Some(d) = &self.until {
            write_header("UNTIL", out);
            d.write_to(out);
        }
        assert(out@ =~= mid + opt_part("UNTIL".spec_bytes(), match self.spec_until() {
            Some(d) => Some(d.ical()),
            None => None,
        }));
        write_number("COUNT", self.count, out);
        write_number("INTERVAL", self.interval, out);
        assert(out@ =~= old(out)@ + self.head_text());
    }

    fn write_lists(&self, out: &mut Vec<u8>)
        ensures
            final(out)@ == old(out)@ + self.lists_text(),
    {
        let ghost o0 = out@;
        write_int_list("BYSECOND", self.by_second.as_slice(), out);
        let ghost o1 = out@;
        write_int_list("BYMINUTE", self.by_minute.as_slice(), out);
        let ghost o2 = out@;
        write_int_list("BYHOUR", self.by_hour.as_slice(), out);
        let ghost o3 = out@;
        write_weekday_list(self.by_day.as_slice(), out);
        let ghost o4 = out@;
        write_int_list("BYMONTHDAY", self.by_month_day.as_slice(), out);
        let ghost o5 = out@;
        write_int_list("BYYEARDAY", self.by_year_day.as_slice(), out);
        let ghost o6 = out@;
        write_int_list("BYWEEKNO", self.by_week_no.as_slice(), out);
        let ghost o7 = out@;
        write_int_list("BYMONTH", self.by_month.as_slice(), out);
        let ghost o8 = out@;
        write_int_list("BYSETPOS", self.by_set_pos.as_slice(), out);
        assert(out@ =~= old(out)@ + self.lists_text());
    }

    /// The parts after `FREQ`, `UNTIL`, `COUNT` and `INTERVAL`.
    pub open spec fn lists_text(&self) -> Seq<u8> {
        list_part("BYSECOND".spec_bytes(), int_texts(self.spec_list(RulePart::BySecond)))
            + list_part("BYMINUTE".spec_bytes(), int_texts(self.spec_list(RulePart::ByMinute)))
            + list_part("BYHOUR".spec_bytes(), int_texts(self.spec_list(RulePart::ByHour)))
            + list_part("BYDAY".spec_bytes(), weekday_texts(self.spec_by_day()))
            + list_part("BYMONTHDAY".spec_bytes(), int_texts(self.spec_list(RulePart::ByMonthDay)))
            + list_part("BYYEARDAY".spec_bytes(), int_texts(self.spec_list(RulePart::ByYearDay)))
            + list_part("BYWEEKNO".spec_bytes(), int_texts(self.spec_list(RulePart::ByWeekNo)))
            + list_part("BYMONTH".spec_bytes(), int_texts(self.spec_list(RulePart::ByMonth)))
            + list_part("BYSETPOS".spec_bytes(), int_texts(self.spec_list(RulePart::BySetPos)))
    }
}

impl Ical for Recur {
    /// `FREQ` first, then each part that is present, in the order RFC 5545
    /// lists them.
    open spec fn ical(&self) -> Seq<u8> {
        self.head_text() + self.lists_text() + opt_part(
            "WKST".spec_bytes(),
            match self.spec_wkst() {
                Some(d) => Some(d.ical()),
                None => None,
            },
        )
    }

    proof fn lemma_ical_valid(&self) {
        broadcast use vstd::utf8::encode_utf8_valid_utf8;

        self.lemma_head_valid();
        self.lemma_lists_valid();
        match self.spec_wkst() {
            Some(d) => d.lemma_ical_valid(),
            None => {},
        }
        lemma_opt_part_valid("WKST".spec_bytes(), match self.spec_wkst() {
            Some(d) => Some(d.ical()),
            None => None,
        });
        let w = opt_part("WKST".spec_bytes(), match self.spec_wkst() {
            Some(d) => Some(d.ical()),
            None => None,
        });
        vstd::utf8::valid_utf8_concat(self.head_text(), self.lists_text());
        vstd::utf8::valid_utf8_concat(self.head_text() + self.lists_text(), w);
    }

    fn write_to(&self, out: &mut Vec<u8>) {
        reveal(opt_part);
        self.write_head(out);
        self.write_lists(out);
        let ghost mid = out@;
        if let Some(d) = self.wkst {
            write_header("WKST", out);
            d.write_to(out);
        }
        assert(out@ =~= mid + opt_part("WKST".spec_bytes(), match self.spec_wkst() {
            Some(d) => Some(d.ical()),
            None => None,
        }));
        assert(out@ =~= old(out)@ + self.ical());
    }
}

// ---------------------------------------------------------------------
// Building a rule.

/// Whether the part `k` of `a` and of `b` are the same.
pub open spec fn same_part(a: Recur, b: Recur, k: RulePart) -> bool {
    match k {
        RulePart::Freq => a.spec_freq() == b.spec_freq(),
        RulePart::Until => a.spec_until() == b.spec_until(),
        RulePart::Count => a.spec_count() == b.spec_count(),
        RulePart::Interval => a.spec_interval() == b.spec_interval(),
        RulePart::ByDay => a.spec_by_day() == b.spec_by_day(),
        RulePart::Wkst => a.spec_wkst() == b.spec_wkst(),
        _ => a.spec_list(k) == b.spec_list(k),
    }
}

/// Whether the numbers `s` fit the list part `k`.
pub open spec fn in_shape(s: Seq<int>, k: RulePart) -> bool {
    forall|i: int|
        0 <= i < s.len() ==> if list_shape(k).0 {
            list_shape(k).2 <= magn(#[trigger] s[i]) <= list_shape(k).3
        } else {
            list_shape(k).2 <= s[i] <= list_shape(k).3
        }
}

fn list_in_shape(v: &[i32], k: RulePart) -> (r: bool)
    ensures
        r == in_shape(ints(v@), k),
{
    let (signed, _w, lo, hi) = shape_of(k);
    let mut i: usize = 0;
    while i < v.len()
        invariant
            i <= v.len(),
            signed == list_shape(k).0,
            lo == list_shape(k).2,
            hi == list_shape(k).3,
            forall|j: int|
                0 <= j < i ==> if signed {
                    lo <= magn(#[trigger] ints(v@)[j]) <= hi
                } else {
                    lo <= ints(v@)[j] <= hi
                },
        decreases v.len() - i,
    {
        let n = v[i];
        let m: i64 = if n < 0 {
            0i64 - (n as i64)
        } else {
            n as i64
        };
        let ok = if signed {
            (lo as i64) <= m && m <= (hi as i64)
        } else {
            lo <= n && n <= hi
        };
        if !ok {
            assert(!(if signed {
                lo <= magn(ints(v@)[i as int]) <= hi
            } else {
                lo <= ints(v@)[i as int] <= hi
            }));
            return false;
        }
        i += 1;
    }
    true
}

impl Recur {
    /// Whether the rule can be written and read back: not both `UNTIL` and
    /// `COUNT`, numbers in their ranges, a positive `INTERVAL`.
    pub open spec fn well_formed(&self) -> bool {
        &&& !(self.spec_until() is Some && self.spec_count() is Some)
        &&& (self.spec_count() matches Some(c) ==> c <= i32::MAX)
        &&& (self.spec_interval() matches Some(c) ==> 1 <= c <= i32::MAX)
        &&& in_shape(self.spec_list(RulePart::BySecond), RulePart::BySecond)
        &&& in_shape(self.spec_list(RulePart::ByMinute), RulePart::ByMinute)
        &&& in_shape(self.spec_list(RulePart::ByHour), RulePart::ByHour)
        &&& in_shape(self.spec_list(RulePart::ByMonthDay), RulePart::ByMonthDay)
        &&& in_shape(self.spec_list(RulePart::ByYearDay), RulePart::ByYearDay)
        &&& in_shape(self.spec_list(RulePart::ByWeekNo), RulePart::ByWeekNo)
        &&& in_shape(self.spec_list(RulePart::ByMonth), RulePart::ByMonth)
        &&& in_shape(self.spec_list(RulePart::BySetPos), RulePart::BySetPos)
        &&& forall|i: int|
            0 <= i < self.spec_by_day().len() ==> ((#[trigger] self.spec_by_day()[i]).0 matches Some(n)
                ==> 1 <= magn(n) <= 53)
    }
}

/// Builds a [`Recur`].
#[derive(Debug)]
pub struct RecurBuilder {
    recur: Recur,
}

impl RecurBuilder {
    /// The rule built so far.
    pub closed spec fn spec_recur(&self) -> Recur {
        self.recur
    }

    /// A rule of frequency `freq`, with no other part.
    pub fn new(freq: Frequency) -> (r: RecurBuilder)
        ensures
            r.spec_recur().spec_freq() == freq,
            r.spec_recur().spec_until() is None,
            r.spec_recur().spec_count() is None,
            r.spec_recur().spec_interval() is None,
            r.spec_recur().spec_by_day().len() == 0,
            r.spec_recur().spec_wkst() is None,
            forall|k: RulePart| #[trigger] r.spec_recur().spec_list(k).len() == 0,
    {
        RecurBuilder {
            recur: Recur {
                freq,
                until: None,
                count: None,
                interval: None,
                by_second: Vec::new(),
                by_minute: Vec::new(),
                by_hour: Vec::new(),
                by_month_day: Vec::new(),
                by_year_day: Vec::new(),
                by_week_no: Vec::new(),
                by_month: Vec::new(),
                by_set_pos: Vec::new(),
                by_day: Vec::new(),
                wkst: None,
            },
        }
    }

    /// Sets `UNTIL`.
    pub fn until(self, d: DateOrDatetime) -> (r: RecurBuilder)
        ensures
            r.spec_recur().spec_until() == Some(d),
            forall|k: RulePart|
                k != RulePart::Until ==> #[trigger] same_part(r.spec_recur(), self.spec_recur(), k),
    {
        let mut b = self;
        b.recur.until = Some(d);
        b
    }

    /// Sets `COUNT`.
    pub fn count(self, n: u32) -> (r: RecurBuilder)
        ensures
            r.spec_recur().spec_count() == Some(n),
            forall|k: RulePart|
                k != RulePart::Count ==> #[trigger] same_part(r.spec_recur(), self.spec_recur(), k),
    {
        let mut b = self;
        b.recur.count = Some(n);
        b
    }

    /// Sets `INTERVAL`.
    pub fn interval(self, n: u32) -> (r: RecurBuilder)
        ensures
            r.spec_recur().spec_interval() == Some(n),
            forall|k: RulePart|
                k != RulePart::Interval ==> #[trigger] same_part(r.spec_recur(), self.spec_recur(), k),
    {
        let mut b = self;
        b.recur.interval = Some(n);
        b
    }

    /// Sets `WKST`.
    pub fn wkst(self, d: Weekday) -> (r: RecurBuilder)
        ensures
            r.spec_recur().spec_wkst() == Some(d),
            forall|k: RulePart|
                k != RulePart::Wkst ==> #[trigger] same_part(r.spec_recur(), self.spec_recur(), k),
    {
        let mut b = self;
        b.recur.wkst = Some(d);
        b
    }

    /// Sets `BYDAY`: each day with the occurrence it is limited to, if any.
    pub fn by_day(self, days: &[(Option<i8>, Weekday)]) -> (r: RecurBuilder)
        ensures
            r.spec_recur().spec_by_day() == days@.map_values(
                |x: (Option<i8>, Weekday)| (ordinal_view(x.0), x.1),
            ),
            forall|k: RulePart|
                k != RulePart::ByDay ==> #[trigger] same_part(r.spec_recur(), self.spec_recur(), k),
    {
        let mut out: Vec<WeekdayNum> = Vec::new();
        let mut i: usize = 0;
        while i < days.len()
            invariant
                i <= days.len(),
                weekday_views(out@) == days@.take(i as int).map_values(
                    |x: (Option<i8>, Weekday)| (ordinal_view(x.0), x.1),
                ),
            decreases days.len() - i,
        {
            let (o, d) = days[i];
            let ghost before = out@;
            out.push(WeekdayNum { ordinal: o, weekday: d });
            assert(weekday_views(out@) =~= days@.take(i + 1).map_values(
                |x: (Option<i8>, Weekday)| (ordinal_view(x.0), x.1),
            )) by {
                assert(weekday_views(out@) =~= weekday_views(before).push((ordinal_view(o), d)));
            }
            i += 1;
        }
        assert(days@.take(days.len() as int) =~= days@);
        let mut b = self;
        b.recur.by_day = out;
        b
    }

    /// Sets `BYSECOND`.
    pub fn by_second(self, v: &[i32]) -> (r: RecurBuilder)
        ensures
            r.spec_recur().spec_list(RulePart::BySecond) == ints(v@),
            forall|k: RulePart|
                k != RulePart::BySecond ==> #[trigger] same_part(r.spec_recur(), self.spec_recur(), k),
    {
        let mut b = self;
        b.recur.by_second = copy_numbers(v);
        b
    }

    /// Sets `BYMINUTE`.
    pub fn by_minute(self, v: &[i32]) -> (r: RecurBuilder)
        ensures
            r.spec_recur().spec_list(RulePart::ByMinute) == ints(v@),
            forall|k: RulePart|
                k != RulePart::ByMinute ==> #[trigger] same_part(r.spec_recur(), self.spec_recur(), k),
    {
        let mut b = self;
        b.recur.by_minute = copy_numbers(v);
        b
    }

    /// Sets `BYHOUR`.
    pub fn by_hour(self, v: &[i32]) -> (r: RecurBuilder)
        ensures
            r.spec_recur().spec_list(RulePart::ByHour) == ints(v@),
            forall|k: RulePart|
                k != RulePart::ByHour ==> #[trigger] same_part(r.spec_recur(), self.spec_recur(), k),
    {
        let mut b = self;
        b.recur.by_hour = copy_numbers(v);
        b
    }

    /// Sets `BYMONTHDAY`.
    pub fn by_month_day(self, v: &[i32]) -> (r: RecurBuilder)
        ensures
            r.spec_recur().spec_list(RulePart::ByMonthDay) == ints(v@),
            forall|k: RulePart|
                k != RulePart::ByMonthDay ==> #[trigger] same_part(r.spec_recur(), self.spec_recur(), k),
    {
        let mut b = self;
        b.recur.by_month_day = copy_numbers(v);
        b
    }

    /// Sets `BYYEARDAY`.
    pub fn by_year_day(self, v: &[i32]) -> (r: RecurBuilder)
        ensures
            r.spec_recur().spec_list(RulePart::ByYearDay) == ints(v@),
            forall|k: RulePart|
                k != RulePart::ByYearDay ==> #[trigger] same_part(r.spec_recur(), self.spec_recur(), k),
    {
        let mut b = self;
        b.recur.by_year_day = copy_numbers(v);
        b
    }

    /// Sets `BYWEEKNO`.
    pub fn by_week_no(self, v: &[i32]) -> (r: RecurBuilder)
        ensures
            r.spec_recur().spec_list(RulePart::ByWeekNo) == ints(v@),
            forall|k: RulePart|
                k != RulePart::ByWeekNo ==> #[trigger] same_part(r.spec_recur(), self.spec_recur(), k),
    {
        let mut b = self;
        b.recur.by_week_no = copy_numbers(v);
        b
    }

    /// Sets `BYMONTH`.
    pub fn by_month(self, v: &[i32]) -> (r: RecurBuilder)
        ensures
            r.spec_recur().spec_list(RulePart::ByMonth) == ints(v@),
            forall|k: RulePart|
                k != RulePart::ByMonth ==> #[trigger] same_part(r.spec_recur(), self.spec_recur(), k),
    {
        let mut b = self;
        b.recur.by_month = copy_numbers(v);
        b
    }

    /// Sets `BYSETPOS`.
    pub fn by_set_pos(self, v: &[i32]) -> (r: RecurBuilder)
        ensures
            r.spec_recur().spec_list(RulePart::BySetPos) == ints(v@),
            forall|k: RulePart|
                k != RulePart::BySetPos ==> #[trigger] same_part(r.spec_recur(), self.spec_recur(), k),
    {
        let mut b = self;
        b.recur.by_set_pos = copy_numbers(v);
        b
    }

    /// The rule, when it is well formed.
    pub fn build(self) -> (r: Result<Recur, ValueError>)
        ensures
            r is Ok <==> self.spec_recur().well_formed(),
            r matches Ok(x) ==> forall|k: RulePart| #[trigger] same_part(x, self.spec_recur(), k),
    {
        let r = self.recur;
        if r.until.is_some() && r.count.is_some() {
            return Err(malformed_value("a RECUR rule without both UNTIL and COUNT", &[]));
        }
        if let Some(c) = r.count {
            if c > 2147483647 {
                return Err(malformed_value("a COUNT within range", &[]));
            }
        }
        if let Some(c) = r.interval {
            if c < 1 || c > 2147483647 {
                return Err(malformed_value("a positive INTERVAL within range", &[]));
            }
        }
        if !list_in_shape(r.by_second.as_slice(), RulePart::BySecond) {
            return Err(malformed_value("a BYSECOND list within range", &[]));
        }
        if !list_in_shape(r.by_minute.as_slice(), RulePart::ByMinute) {
            return Err(malformed_value("a BYMINUTE list within range", &[]));
        }
        if !list_in_shape(r.by_hour.as_slice(), RulePart::ByHour) {
            return Err(malformed_value("a BYHOUR list within range", &[]));
        }
        if !list_in_shape(r.by_month_day.as_slice(), RulePart::ByMonthDay) {
            return Err(malformed_value("a BYMONTHDAY list within range", &[]));
        }
        if !list_in_shape(r.by_year_day.as_slice(), RulePart::ByYearDay) {
            return Err(malformed_value("a BYYEARDAY list within range", &[]));
        }
        if !list_in_shape(r.by_week_no.as_slice(), RulePart::ByWeekNo) {
            return Err(malformed_value("a BYWEEKNO list within range", &[]));
        }
        if !list_in_shape(r.by_month.as_slice(), RulePart::ByMonth) {
            return Err(malformed_value("a BYMONTH list within range", &[]));
        }
        if !list_in_shape(r.by_set_pos.as_slice(), RulePart::BySetPos) {
            return Err(malformed_value("a BYSETPOS list within range", &[]));
        }
        let mut i: usize = 0;
        while i < r.by_day.len()
            invariant
                i <= r.by_day.len(),
                r == self.spec_recur(),
                forall|j: int|
                    0 <= j < i ==> ((#[trigger] weekday_views(r.by_day@)[j]).0 matches Some(n) ==> 1
                        <= magn(n) <= 53),
            decreases r.by_day.len() - i,
        {
            if let Some(n) = r.by_day[i].ordinal {
                if n == 0 || n > 53 || n < -53 {
                    assert(weekday_views(r.by_day@)[i as int].0 == Some(n as int));
                    assert(r.spec_by_day()[i as int].0 == Some(n as int));
                    assert(!r.well_formed());
                    return Err(malformed_value("a BYDAY occurrence within range", &[]));
                }
            }
            i += 1;
        }
        Ok(r)
    }
}

fn copy_numbers(v: &[i32]) -> (r: Vec<i32>)
    ensures
        r@ == v@,
{
    let mut out: Vec<i32> = Vec::new();
    let mut i: usize = 0;
    while i < v.len()
        invariant
            i <= v.len(),
            out@ == v@.take(i as int),
        decreases v.len() - i,
    {
        out.push(v[i]);
        assert(out@ =~= v@.take(i + 1));
        i += 1;
    }
    assert(v@.take(v.len() as int) =~= v@);
    out
}

} // verus!
