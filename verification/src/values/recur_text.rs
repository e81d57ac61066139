//! Reading a written rule back: a well-formed RECUR value, written, parses
//! to itself.

use vstd::prelude::*;
use vstd::string::StringSliceAdditionalSpecFns;
use crate::bytes::{lemma_pieces_joined, lemma_pieces_sep, pieces, lemma_sep_tail_push, sep_tail, first_byte, joined, lemma_scan_byte, lacks, upper, COMMA, EQUALS, HYPHEN, PLUS, SEMICOLON};
use crate::values::recur::{
    in_shape, list_shape, value_ok, list_part, opt_part, part_kind, part_value, rule_at, Recur, number_text, int_texts, magn, num_list, rule_kind, rule_num, weekday_list, weekday_num, weekday_text, weekday_texts, Frequency,
    RulePart, Weekday,
};
use crate::values::{decimal, integer_of, integer_text, is_digit_byte, lemma_decimal_digits, lemma_integer_round_trip};
use crate::values::Ical;
use crate::values::datetime::{lemma_date_round_trip, lemma_datetime_round_trip, Date, DateOrDatetime, DateTime};

verus! {

/// The name a rule part is written with.
pub open spec fn rule_name(k: RulePart) -> Seq<u8> {
    match k {
        RulePart::Freq => "FREQ".spec_bytes(),
        RulePart::Until => "UNTIL".spec_bytes(),
        RulePart::Count => "COUNT".spec_bytes(),
        RulePart::Interval => "INTERVAL".spec_bytes(),
        RulePart::BySecond => "BYSECOND".spec_bytes(),
        RulePart::ByMinute => "BYMINUTE".spec_bytes(),
        RulePart::ByHour => "BYHOUR".spec_bytes(),
        RulePart::ByDay => "BYDAY".spec_bytes(),
        RulePart::ByMonthDay => "BYMONTHDAY".spec_bytes(),
        RulePart::ByYearDay => "BYYEARDAY".spec_bytes(),
        RulePart::ByWeekNo => "BYWEEKNO".spec_bytes(),
        RulePart::ByMonth => "BYMONTH".spec_bytes(),
        RulePart::BySetPos => "BYSETPOS".spec_bytes(),
        RulePart::Wkst => "WKST".spec_bytes(),
    }
}

/// Each part's name is read back as that part, and holds only capital
/// letters.
pub proof fn lemma_rule_name(k: RulePart)
    ensures
        rule_kind(rule_name(k)) == Some(k),
        upper(rule_name(k)) == rule_name(k),
        forall|i: int| 0 <= i < rule_name(k).len() ==> 65 <= #[trigger] rule_name(k)[i] <= 90,
        rule_name(k).len() > 0,
{
    reveal_strlit("FREQ");
    reveal_strlit("UNTIL");
    reveal_strlit("COUNT");
    reveal_strlit("INTERVAL");
    reveal_strlit("BYSECOND");
    reveal_strlit("BYMINUTE");
    reveal_strlit("BYHOUR");
    reveal_strlit("BYDAY");
    reveal_strlit("BYMONTHDAY");
    reveal_strlit("BYYEARDAY");
    reveal_strlit("BYWEEKNO");
    reveal_strlit("BYMONTH");
    reveal_strlit("BYSETPOS");
    reveal_strlit("WKST");
    vstd::string::is_ascii_spec_bytes("FREQ");
    vstd::string::is_ascii_spec_bytes("UNTIL");
    vstd::string::is_ascii_spec_bytes("COUNT");
    vstd::string::is_ascii_spec_bytes("INTERVAL");
    vstd::string::is_ascii_spec_bytes("BYSECOND");
    vstd::string::is_ascii_spec_bytes("BYMINUTE");
    vstd::string::is_ascii_spec_bytes("BYHOUR");
    vstd::string::is_ascii_spec_bytes("BYDAY");
    vstd::string::is_ascii_spec_bytes("BYMONTHDAY");
    vstd::string::is_ascii_spec_bytes("BYYEARDAY");
    vstd::string::is_ascii_spec_bytes("BYWEEKNO");
    vstd::string::is_ascii_spec_bytes("BYMONTH");
    vstd::string::is_ascii_spec_bytes("BYSETPOS");
    vstd::string::is_ascii_spec_bytes("WKST");
    crate::bytes::lemma_str_bytes_differ("UNTIL", "FREQ", 0);
    crate::bytes::lemma_str_bytes_differ("COUNT", "FREQ", 0);
    crate::bytes::lemma_str_bytes_differ("COUNT", "UNTIL", 0);
    crate::bytes::lemma_str_bytes_differ("INTERVAL", "FREQ", 0);
    crate::bytes::lemma_str_bytes_differ("INTERVAL", "UNTIL", 0);
    crate::bytes::lemma_str_bytes_differ("INTERVAL", "COUNT", 0);
    crate::bytes::lemma_str_bytes_differ("BYSECOND", "FREQ", 0);
    crate::bytes::lemma_str_bytes_differ("BYSECOND", "UNTIL", 0);
    crate::bytes::lemma_str_bytes_differ("BYSECOND", "COUNT", 0);
    crate::bytes::lemma_str_bytes_differ("BYSECOND", "INTERVAL", 0);
    crate::bytes::lemma_str_bytes_differ("BYMINUTE", "FREQ", 0);
    crate::bytes::lemma_str_bytes_differ("BYMINUTE", "UNTIL", 0);
    crate::bytes::lemma_str_bytes_differ("BYMINUTE", "COUNT", 0);
    crate::bytes::lemma_str_bytes_differ("BYMINUTE", "INTERVAL", 0);
    crate::bytes::lemma_str_bytes_differ("BYMINUTE", "BYSECOND", 2);
    crate::bytes::lemma_str_bytes_differ("BYHOUR", "FREQ", 0);
    crate::bytes::lemma_str_bytes_differ("BYHOUR", "UNTIL", 0);
    crate::bytes::lemma_str_bytes_differ("BYHOUR", "COUNT", 0);
    crate::bytes::lemma_str_bytes_differ("BYHOUR", "INTERVAL", 0);
    crate::bytes::lemma_str_bytes_differ("BYHOUR", "BYSECOND", 0);
    crate::bytes::lemma_str_bytes_differ("BYHOUR", "BYMINUTE", 0);
    crate::bytes::lemma_str_bytes_differ("BYDAY", "FREQ", 0);
    crate::bytes::lemma_str_bytes_differ("BYDAY", "UNTIL", 0);
    crate::bytes::lemma_str_bytes_differ("BYDAY", "COUNT", 0);
    crate::bytes::lemma_str_bytes_differ("BYDAY", "INTERVAL", 0);
    crate::bytes::lemma_str_bytes_differ("BYDAY", "BYSECOND", 0);
    crate::bytes::lemma_str_bytes_differ("BYDAY", "BYMINUTE", 0);
    crate::bytes::lemma_str_bytes_differ("BYDAY", "BYHOUR", 0);
    crate::bytes::lemma_str_bytes_differ("BYMONTHDAY", "FREQ", 0);
    crate::bytes::lemma_str_bytes_differ("BYMONTHDAY", "UNTIL", 0);
    crate::bytes::lemma_str_bytes_differ("BYMONTHDAY", "COUNT", 0);
    crate::bytes::lemma_str_bytes_differ("BYMONTHDAY", "INTERVAL", 0);
    crate::bytes::lemma_str_bytes_differ("BYMONTHDAY", "BYSECOND", 0);
    crate::bytes::lemma_str_bytes_differ("BYMONTHDAY", "BYMINUTE", 0);
    crate::bytes::lemma_str_bytes_differ("BYMONTHDAY", "BYHOUR", 0);
    crate::bytes::lemma_str_bytes_differ("BYMONTHDAY", "BYDAY", 0);
    crate::bytes::lemma_str_bytes_differ("BYYEARDAY", "FREQ", 0);
    crate::bytes::lemma_str_bytes_differ("BYYEARDAY", "UNTIL", 0);
    crate::bytes::lemma_str_bytes_differ("BYYEARDAY", "COUNT", 0);
    crate::bytes::lemma_str_bytes_differ("BYYEARDAY", "INTERVAL", 0);
    crate::bytes::lemma_str_bytes_differ("BYYEARDAY", "BYSECOND", 0);
    crate::bytes::lemma_str_bytes_differ("BYYEARDAY", "BYMINUTE", 0);
    crate::bytes::lemma_str_bytes_differ("BYYEARDAY", "BYHOUR", 0);
    crate::bytes::lemma_str_bytes_differ("BYYEARDAY", "BYDAY", 0);
    crate::bytes::lemma_str_bytes_differ("BYYEARDAY", "BYMONTHDAY", 0);
    crate::bytes::lemma_str_bytes_differ("BYWEEKNO", "FREQ", 0);
    crate::bytes::lemma_str_bytes_differ("BYWEEKNO", "UNTIL", 0);
    crate::bytes::lemma_str_bytes_differ("BYWEEKNO", "COUNT", 0);
    crate::bytes::lemma_str_bytes_differ("BYWEEKNO", "INTERVAL", 0);
    crate::bytes::lemma_str_bytes_differ("BYWEEKNO", "BYSECOND", 2);
    crate::bytes::lemma_str_bytes_differ("BYWEEKNO", "BYMINUTE", 2);
    crate::bytes::lemma_str_bytes_differ("BYWEEKNO", "BYHOUR", 0);
    crate::bytes::lemma_str_bytes_differ("BYWEEKNO", "BYDAY", 0);
    crate::bytes::lemma_str_bytes_differ("BYWEEKNO", "BYMONTHDAY", 0);
    crate::bytes::lemma_str_bytes_differ("BYWEEKNO", "BYYEARDAY", 0);
    crate::bytes::lemma_str_bytes_differ("BYMONTH", "FREQ", 0);
    crate::bytes::lemma_str_bytes_differ("BYMONTH", "UNTIL", 0);
    crate::bytes::lemma_str_bytes_differ("BYMONTH", "COUNT", 0);
    crate::bytes::lemma_str_bytes_differ("BYMONTH", "INTERVAL", 0);
    crate::bytes::lemma_str_bytes_differ("BYMONTH", "BYSECOND", 0);
    crate::bytes::lemma_str_bytes_differ("BYMONTH", "BYMINUTE", 0);
    crate::bytes::lemma_str_bytes_differ("BYMONTH", "BYHOUR", 0);
    crate::bytes::lemma_str_bytes_differ("BYMONTH", "BYDAY", 0);
    crate::bytes::lemma_str_bytes_differ("BYMONTH", "BYMONTHDAY", 0);
    crate::bytes::lemma_str_bytes_differ("BYMONTH", "BYYEARDAY", 0);
    crate::bytes::lemma_str_bytes_differ("BYMONTH", "BYWEEKNO", 0);
    crate::bytes::lemma_str_bytes_differ("BYSETPOS", "FREQ", 0);
    crate::bytes::lemma_str_bytes_differ("BYSETPOS", "UNTIL", 0);
    crate::bytes::lemma_str_bytes_differ("BYSETPOS", "COUNT", 0);
    crate::bytes::lemma_str_bytes_differ("BYSETPOS", "INTERVAL", 0);
    crate::bytes::lemma_str_bytes_differ("BYSETPOS", "BYSECOND", 4);
    crate::bytes::lemma_str_bytes_differ("BYSETPOS", "BYMINUTE", 2);
    crate::bytes::lemma_str_bytes_differ("BYSETPOS", "BYHOUR", 0);
    crate::bytes::lemma_str_bytes_differ("BYSETPOS", "BYDAY", 0);
    crate::bytes::lemma_str_bytes_differ("BYSETPOS", "BYMONTHDAY", 0);
    crate::bytes::lemma_str_bytes_differ("BYSETPOS", "BYYEARDAY", 0);
    crate::bytes::lemma_str_bytes_differ("BYSETPOS", "BYWEEKNO", 2);
    crate::bytes::lemma_str_bytes_differ("BYSETPOS", "BYMONTH", 0);
    crate::bytes::lemma_str_bytes_differ("WKST", "FREQ", 0);
    crate::bytes::lemma_str_bytes_differ("WKST", "UNTIL", 0);
    crate::bytes::lemma_str_bytes_differ("WKST", "COUNT", 0);
    crate::bytes::lemma_str_bytes_differ("WKST", "INTERVAL", 0);
    crate::bytes::lemma_str_bytes_differ("WKST", "BYSECOND", 0);
    crate::bytes::lemma_str_bytes_differ("WKST", "BYMINUTE", 0);
    crate::bytes::lemma_str_bytes_differ("WKST", "BYHOUR", 0);
    crate::bytes::lemma_str_bytes_differ("WKST", "BYDAY", 0);
    crate::bytes::lemma_str_bytes_differ("WKST", "BYMONTHDAY", 0);
    crate::bytes::lemma_str_bytes_differ("WKST", "BYYEARDAY", 0);
    crate::bytes::lemma_str_bytes_differ("WKST", "BYWEEKNO", 0);
    crate::bytes::lemma_str_bytes_differ("WKST", "BYMONTH", 0);
    crate::bytes::lemma_str_bytes_differ("WKST", "BYSETPOS", 0);
    assert(upper(rule_name(k)) =~= rule_name(k));
}

/// Each frequency's keyword is read back as that frequency.
pub proof fn lemma_frequency_keyword(f: Frequency)
    ensures
        Frequency::keyword(f.ical()) == Some(f),
        forall|i: int| 0 <= i < f.ical().len() ==> 65 <= #[trigger] f.ical()[i] <= 90,
{
    reveal_strlit("SECONDLY");
    reveal_strlit("MINUTELY");
    reveal_strlit("HOURLY");
    reveal_strlit("DAILY");
    reveal_strlit("WEEKLY");
    reveal_strlit("MONTHLY");
    reveal_strlit("YEARLY");
    vstd::string::is_ascii_spec_bytes("SECONDLY");
    vstd::string::is_ascii_spec_bytes("MINUTELY");
    vstd::string::is_ascii_spec_bytes("HOURLY");
    vstd::string::is_ascii_spec_bytes("DAILY");
    vstd::string::is_ascii_spec_bytes("WEEKLY");
    vstd::string::is_ascii_spec_bytes("MONTHLY");
    vstd::string::is_ascii_spec_bytes("YEARLY");
    crate::bytes::lemma_str_bytes_differ("MINUTELY", "SECONDLY", 0);
    crate::bytes::lemma_str_bytes_differ("HOURLY", "SECONDLY", 0);
    crate::bytes::lemma_str_bytes_differ("HOURLY", "MINUTELY", 0);
    crate::bytes::lemma_str_bytes_differ("DAILY", "SECONDLY", 0);
    crate::bytes::lemma_str_bytes_differ("DAILY", "MINUTELY", 0);
    crate::bytes::lemma_str_bytes_differ("DAILY", "HOURLY", 0);
    crate::bytes::lemma_str_bytes_differ("WEEKLY", "SECONDLY", 0);
    crate::bytes::lemma_str_bytes_differ("WEEKLY", "MINUTELY", 0);
    crate::bytes::lemma_str_bytes_differ("WEEKLY", "HOURLY", 0);
    crate::bytes::lemma_str_bytes_differ("WEEKLY", "DAILY", 0);
    crate::bytes::lemma_str_bytes_differ("MONTHLY", "SECONDLY", 0);
    crate::bytes::lemma_str_bytes_differ("MONTHLY", "MINUTELY", 0);
    crate::bytes::lemma_str_bytes_differ("MONTHLY", "HOURLY", 0);
    crate::bytes::lemma_str_bytes_differ("MONTHLY", "DAILY", 0);
    crate::bytes::lemma_str_bytes_differ("MONTHLY", "WEEKLY", 0);
    crate::bytes::lemma_str_bytes_differ("YEARLY", "SECONDLY", 0);
    crate::bytes::lemma_str_bytes_differ("YEARLY", "MINUTELY", 0);
    crate::bytes::lemma_str_bytes_differ("YEARLY", "HOURLY", 0);
    crate::bytes::lemma_str_bytes_differ("YEARLY", "DAILY", 0);
    crate::bytes::lemma_str_bytes_differ("YEARLY", "WEEKLY", 0);
    crate::bytes::lemma_str_bytes_differ("YEARLY", "MONTHLY", 0);
}

/// Each weekday's keyword is read back as that day, and is two capital
/// letters.
pub proof fn lemma_weekday_keyword(d: Weekday)
    ensures
        Weekday::keyword(d.ical()) == Some(d),
        d.ical().len() == 2,
        forall|i: int| 0 <= i < d.ical().len() ==> 65 <= #[trigger] d.ical()[i] <= 90,
{
    reveal_strlit("SU");
    reveal_strlit("MO");
    reveal_strlit("TU");
    reveal_strlit("WE");
    reveal_strlit("TH");
    reveal_strlit("FR");
    reveal_strlit("SA");
    vstd::string::is_ascii_spec_bytes("SU");
    vstd::string::is_ascii_spec_bytes("MO");
    vstd::string::is_ascii_spec_bytes("TU");
    vstd::string::is_ascii_spec_bytes("WE");
    vstd::string::is_ascii_spec_bytes("TH");
    vstd::string::is_ascii_spec_bytes("FR");
    vstd::string::is_ascii_spec_bytes("SA");
    crate::bytes::lemma_str_bytes_differ("MO", "SU", 0);
    crate::bytes::lemma_str_bytes_differ("TU", "SU", 0);
    crate::bytes::lemma_str_bytes_differ("TU", "MO", 0);
    crate::bytes::lemma_str_bytes_differ("WE", "SU", 0);
    crate::bytes::lemma_str_bytes_differ("WE", "MO", 0);
    crate::bytes::lemma_str_bytes_differ("WE", "TU", 0);
    crate::bytes::lemma_str_bytes_differ("TH", "SU", 0);
    crate::bytes::lemma_str_bytes_differ("TH", "MO", 0);
    crate::bytes::lemma_str_bytes_differ("TH", "TU", 1);
    crate::bytes::lemma_str_bytes_differ("TH", "WE", 0);
    crate::bytes::lemma_str_bytes_differ("FR", "SU", 0);
    crate::bytes::lemma_str_bytes_differ("FR", "MO", 0);
    crate::bytes::lemma_str_bytes_differ("FR", "TU", 0);
    crate::bytes::lemma_str_bytes_differ("FR", "WE", 0);
    crate::bytes::lemma_str_bytes_differ("FR", "TH", 0);
    crate::bytes::lemma_str_bytes_differ("SA", "SU", 1);
    crate::bytes::lemma_str_bytes_differ("SA", "MO", 0);
    crate::bytes::lemma_str_bytes_differ("SA", "TU", 0);
    crate::bytes::lemma_str_bytes_differ("SA", "WE", 0);
    crate::bytes::lemma_str_bytes_differ("SA", "TH", 0);
    crate::bytes::lemma_str_bytes_differ("SA", "FR", 0);
}


/// Ten to the power `w`.
pub open spec fn ten(w: nat) -> nat
    decreases w,
{
    if w == 0 {
        1
    } else {
        10 * ten((w - 1) as nat)
    }
}

/// A number below ten to the `w` has at most `w` digits.
pub proof fn lemma_decimal_len(n: nat, w: nat)
    requires
        n < ten(w),
        w >= 1,
    ensures
        decimal(n).len() <= w,
    decreases w,
{
    if n >= 10 {
        assert(w >= 2) by {
            if w == 1 {
                assert(ten(1) == 10) by {
                    reveal_with_fuel(ten, 2);
                }
            }
        }
        assert(n / 10 < ten((w - 1) as nat)) by (nonlinear_arith)
            requires
                n < ten(w),
                ten(w) == 10 * ten((w - 1) as nat),
        ;
        lemma_decimal_len(n / 10, (w - 1) as nat);
    }
}

/// A written integer holds only digits and perhaps a leading `-`: no `,`
/// and no `;`.
pub proof fn lemma_integer_text_bytes(n: int)
    ensures
        integer_text(n).len() > 0,
        lacks(integer_text(n), COMMA),
        lacks(integer_text(n), SEMICOLON),
        lacks(integer_text(n), EQUALS),
        (integer_text(n)[0] == HYPHEN) == (n < 0),
        integer_text(n)[0] != PLUS,
{
    let t = integer_text(n);
    if n < 0 {
        lemma_decimal_digits((-n) as nat);
        assert forall|i: int| 0 <= i < t.len() implies t[i] != COMMA && t[i] != SEMICOLON && t[i] != EQUALS by {
            if i > 0 {
                assert(t[i] == decimal((-n) as nat)[i - 1]);
                assert(is_digit_byte(decimal((-n) as nat)[i - 1]));
            }
        }
    } else {
        lemma_decimal_digits(n as nat);
        assert forall|i: int| 0 <= i < t.len() implies t[i] != COMMA && t[i] != SEMICOLON && t[i] != EQUALS && t[i] != HYPHEN && t[i] != PLUS by {
            assert(is_digit_byte(decimal(n as nat)[i]));
        }
    }
}

/// A written number in its range reads back as a number of a rule part.
pub proof fn lemma_rule_num_text(n: int, signed: bool, width: nat, lo: int, hi: int)
    requires
        lo <= magn(n) <= hi,
        signed || n >= 0,
        magn(n) < ten(width),
        width >= 1,
    ensures
        rule_num(integer_text(n), signed, width as int, lo, hi) == Some(n),
{
    lemma_integer_round_trip(n);
    lemma_integer_text_bytes(n);
    lemma_decimal_len(magn(n) as nat, width);
    let t = integer_text(n);
    if n < 0 {
        assert(t.len() - 1 == decimal((-n) as nat).len());
    } else {
        assert(t == decimal(n as nat));
    }
}

/// Written numbers in range read back as the list.
pub proof fn lemma_num_list_text(s: Seq<int>, signed: bool, width: nat, lo: int, hi: int)
    requires
        forall|i: int| 0 <= i < s.len() ==> lo <= magn(#[trigger] s[i]) <= hi && (signed || s[i] >= 0)
            && magn(s[i]) < ten(width),
        width >= 1,
    ensures
        num_list(int_texts(s), signed, width as int, lo, hi) == Some(s),
    decreases s.len(),
{
    if s.len() > 0 {
        assert forall|i: int| 0 <= i < s.drop_last().len() implies lo <= magn(#[trigger] s.drop_last()[i]) <= hi
            && (signed || s.drop_last()[i] >= 0) && magn(s.drop_last()[i]) < ten(width) by {
            assert(s.drop_last()[i] == s[i]);
        }
        lemma_num_list_text(s.drop_last(), signed, width, lo, hi);
        assert(int_texts(s).drop_last() =~= int_texts(s.drop_last()));
        lemma_rule_num_text(s.last(), signed, width, lo, hi);
        assert(s.drop_last().push(s.last()) =~= s);
    } else {
        assert(int_texts(s) =~= Seq::<Seq<u8>>::empty());
    }
}


/// A written `BYDAY` item reads back as itself.
pub proof fn lemma_weekday_num_text(x: (Option<int>, Weekday))
    requires
        x.0 matches Some(n) ==> 1 <= magn(n) <= 53,
    ensures
        weekday_num(weekday_text(x)) == Some(x),
        lacks(weekday_text(x), COMMA),
        lacks(weekday_text(x), SEMICOLON),
        lacks(weekday_text(x), EQUALS),
{
    lemma_weekday_keyword(x.1);
    let d = x.1.ical();
    let v = weekday_text(x);
    match x.0 {
        Some(n) => {
            lemma_integer_text_bytes(n);
            reveal_with_fuel(ten, 3);
            lemma_rule_num_text(n, true, 2, 1, 53);
            let t = integer_text(n);
            assert(v.skip(v.len() - 2) =~= d);
            assert(v.take(v.len() - 2) =~= t);
            assert forall|i: int| 0 <= i < v.len() implies v[i] != COMMA && v[i] != SEMICOLON && v[i] != EQUALS by {
                if i < t.len() {
                    assert(v[i] == t[i]);
                } else {
                    assert(v[i] == d[i - t.len()]);
                }
            }
        },
        None => {
            assert(v.skip(v.len() - 2) =~= d);
        },
    }
}

/// Written `BYDAY` items read back as the list.
pub proof fn lemma_weekday_list_text(s: Seq<(Option<int>, Weekday)>)
    requires
        forall|i: int| 0 <= i < s.len() ==> ((#[trigger] s[i]).0 matches Some(n) ==> 1 <= magn(n) <= 53),
    ensures
        weekday_list(weekday_texts(s)) == Some(s),
    decreases s.len(),
{
    if s.len() > 0 {
        assert forall|i: int| 0 <= i < s.drop_last().len() implies ((#[trigger] s.drop_last()[i]).0 matches Some(n)
            ==> 1 <= magn(n) <= 53) by {
            assert(s.drop_last()[i] == s[i]);
        }
        lemma_weekday_list_text(s.drop_last());
        assert(weekday_texts(s).drop_last() =~= weekday_texts(s.drop_last()));
        lemma_weekday_num_text(s.last());
        assert(s.drop_last().push(s.last()) =~= s);
    } else {
        assert(weekday_texts(s) =~= Seq::<Seq<u8>>::empty());
    }
}


/// A written date or date-time reads back as itself, and holds no `;`.
pub proof fn lemma_until_text(d: DateOrDatetime)
    requires
        d.wf(),
    ensures
        DateOrDatetime::parses(d.ical()),
        DateOrDatetime::accepts(d.ical(), d),
        lacks(d.ical(), SEMICOLON),
{
    match d {
        DateOrDatetime::Date(x) => {
            lemma_date_round_trip(x);
            let v = x.ical();
            assert forall|i: int| 0 <= i < v.len() implies v[i] != SEMICOLON by {
                assert(is_digit_byte(v[i]));
            }
        },
        DateOrDatetime::DateTime(x) => {
            lemma_datetime_round_trip(x);
            let v = x.ical();
            assert(!Date::parses(v));
            assert forall|i: int| 0 <= i < v.len() implies v[i] != SEMICOLON by {
                if i < 8 || (9 <= i < 15) {
                    assert(is_digit_byte(v[i]));
                }
            }
        },
    }
}


/// The rule parts in the order a rule is written.
pub open spec fn part_at(i: int) -> RulePart {
    if i <= 0 {
        RulePart::Freq
    } else if i == 1 {
        RulePart::Until
    } else if i == 2 {
        RulePart::Count
    } else if i == 3 {
        RulePart::Interval
    } else if i == 4 {
        RulePart::BySecond
    } else if i == 5 {
        RulePart::ByMinute
    } else if i == 6 {
        RulePart::ByHour
    } else if i == 7 {
        RulePart::ByDay
    } else if i == 8 {
        RulePart::ByMonthDay
    } else if i == 9 {
        RulePart::ByYearDay
    } else if i == 10 {
        RulePart::ByWeekNo
    } else if i == 11 {
        RulePart::ByMonth
    } else if i == 12 {
        RulePart::BySetPos
    } else {
        RulePart::Wkst
    }
}

/// The place of a rule part in the written order.
pub open spec fn rank(k: RulePart) -> int {
    match k {
        RulePart::Freq => 0,
        RulePart::Until => 1,
        RulePart::Count => 2,
        RulePart::Interval => 3,
        RulePart::BySecond => 4,
        RulePart::ByMinute => 5,
        RulePart::ByHour => 6,
        RulePart::ByDay => 7,
        RulePart::ByMonthDay => 8,
        RulePart::ByYearDay => 9,
        RulePart::ByWeekNo => 10,
        RulePart::ByMonth => 11,
        RulePart::BySetPos => 12,
        RulePart::Wkst => 13,
    }
}

/// The value the rule `r` is written with for the part `k`, where it has
/// that part.
pub open spec fn written_value(r: Recur, k: RulePart) -> Option<Seq<u8>> {
    match k {
        RulePart::Freq => Some(r.spec_freq().ical()),
        RulePart::Until => match r.spec_until() {
            Some(d) => Some(d.ical()),
            None => None,
        },
        RulePart::Count => number_text(r.spec_count()),
        RulePart::Interval => number_text(r.spec_interval()),
        RulePart::ByDay => if r.spec_by_day().len() == 0 {
            None
        } else {
            Some(joined(weekday_texts(r.spec_by_day()), COMMA))
        },
        RulePart::Wkst => match r.spec_wkst() {
            Some(d) => Some(d.ical()),
            None => None,
        },
        _ => if r.spec_list(k).len() == 0 {
            None
        } else {
            Some(joined(int_texts(r.spec_list(k)), COMMA))
        },
    }
}

/// A part written: its name, `=`, its value.
pub open spec fn piece(k: RulePart, v: Seq<u8>) -> Seq<u8> {
    rule_name(k) + seq![EQUALS] + v
}

/// The parts `r` has among the first `m` of the written order, with their
/// values.
pub open spec fn pairs_upto(r: Recur, m: int) -> Seq<(RulePart, Seq<u8>)>
    decreases m,
{
    if m <= 0 {
        seq![]
    } else {
        match written_value(r, part_at(m - 1)) {
            Some(v) => pairs_upto(r, m - 1).push((part_at(m - 1), v)),
            None => pairs_upto(r, m - 1),
        }
    }
}

/// Parts with their values, written.
pub open spec fn written(kvs: Seq<(RulePart, Seq<u8>)>) -> Seq<Seq<u8>> {
    kvs.map_values(|kv: (RulePart, Seq<u8>)| piece(kv.0, kv.1))
}

/// A written part is read back as that part and that value.
pub proof fn lemma_piece_parts(k: RulePart, v: Seq<u8>)
    ensures
        part_kind(piece(k, v)) == Some(k),
        part_value(piece(k, v)) == v,
{
    lemma_rule_name(k);
    let n = rule_name(k);
    let p = piece(k, v);
    lemma_scan_byte(p, EQUALS, 0);
    assert(p[n.len() as int] == EQUALS);
    match first_byte(p, EQUALS) {
        Some(e) => {
            if e < n.len() {
                assert(p[e] == n[e]);
            }
            assert(e == n.len());
        },
        None => {
            assert(false);
        },
    }
    assert(p.take(n.len() as int) =~= n);
    assert(p.skip(n.len() as int + 1) =~= v);
}

/// Adding a piece after the first `n` leaves what those give unchanged.
pub proof fn lemma_rule_at_push(ps: Seq<Seq<u8>>, p: Seq<u8>, n: int, k: RulePart)
    requires
        n <= ps.len(),
    ensures
        rule_at(ps.push(p), n, k) == rule_at(ps, n, k),
    decreases n,
{
    if n > 0 {
        assert(ps.push(p)[n - 1] == ps[n - 1]);
        lemma_rule_at_push(ps, p, n - 1, k);
    }
}

/// What the parts among the first `m` are: in the written order, each part
/// once, with the value `r` is written with; a part looked up among them
/// gives that value.
pub proof fn lemma_pairs_upto(r: Recur, m: int)
    requires
        0 <= m <= 14,
    ensures
        forall|i: int| 0 <= i < pairs_upto(r, m).len() ==> 0 <= rank(#[trigger] pairs_upto(r, m)[i].0) < m
            && written_value(r, pairs_upto(r, m)[i].0) == Some(pairs_upto(r, m)[i].1),
        forall|i: int, j: int|
            0 <= i < j < pairs_upto(r, m).len() ==> rank(#[trigger] pairs_upto(r, m)[i].0) < rank(
                #[trigger] pairs_upto(r, m)[j].0,
            ),
        forall|k: RulePart| #[trigger] rule_at(written(pairs_upto(r, m)), pairs_upto(r, m).len() as int, k) == if rank(k) < m {
            written_value(r, k)
        } else {
            None
        },
    decreases m,
{
    if m > 0 {
        lemma_pairs_upto(r, m - 1);
        let prev = pairs_upto(r, m - 1);
        let k0 = part_at(m - 1);
        assert(rank(k0) == m - 1);
        match written_value(r, k0) {
            Some(v) => {
                let cur = prev.push((k0, v));
                assert(pairs_upto(r, m) == cur);
                assert(written(cur) =~= written(prev).push(piece(k0, v)));
                lemma_piece_parts(k0, v);
                assert forall|k: RulePart| #[trigger] rule_at(written(cur), cur.len() as int, k) == if rank(k) < m {
                    written_value(r, k)
                } else {
                    None
                } by {
                    assert(written(cur)[cur.len() - 1] == piece(k0, v));
                    if k != k0 {
                        lemma_rule_at_push(written(prev), piece(k0, v), prev.len() as int, k);
                        assert(rank(k) != rank(k0));
                    }
                }
            },
            None => {
                assert forall|k: RulePart| #[trigger] rule_at(written(prev), prev.len() as int, k) == if rank(k) < m {
                    written_value(r, k)
                } else {
                    None
                } by {
                    if k == k0 {
                    } else {
                        assert(rank(k) != rank(k0));
                    }
                }
            },
        }
    }
}


/// `;` and the part `k` of `r` written, where `r` has that part.
pub open spec fn opt_text(r: Recur, k: RulePart) -> Seq<u8> {
    match written_value(r, k) {
        Some(v) => seq![SEMICOLON] + piece(k, v),
        None => seq![],
    }
}

/// The first `m` parts of the written order that `r` has, written one
/// after the other; `FREQ` always comes first.
pub open spec fn text_upto(r: Recur, m: int) -> Seq<u8>
    decreases m,
{
    if m <= 1 {
        piece(RulePart::Freq, r.spec_freq().ical())
    } else {
        text_upto(r, m - 1) + opt_text(r, part_at(m - 1))
    }
}

/// The text of the first parts is the first of them, then `;` and each
/// other in turn.
pub proof fn lemma_text_upto(r: Recur, m: int)
    requires
        1 <= m <= 14,
    ensures
        pairs_upto(r, m).len() >= 1,
        written(pairs_upto(r, m))[0] == piece(RulePart::Freq, r.spec_freq().ical()),
        text_upto(r, m) == written(pairs_upto(r, m))[0] + sep_tail(written(pairs_upto(r, m)).skip(1), SEMICOLON),
    decreases m,
{
    if m == 1 {
        assert(pairs_upto(r, 0) == Seq::<(RulePart, Seq<u8>)>::empty());
        assert(pairs_upto(r, 1) =~= seq![(RulePart::Freq, r.spec_freq().ical())]);
        assert(written(pairs_upto(r, 1)).skip(1) =~= Seq::<Seq<u8>>::empty());
        assert(sep_tail(written(pairs_upto(r, 1)).skip(1), SEMICOLON) == Seq::<u8>::empty());
        assert(text_upto(r, 1) =~= written(pairs_upto(r, 1))[0] + sep_tail(written(pairs_upto(r, 1)).skip(1), SEMICOLON));
    } else {
        lemma_text_upto(r, m - 1);
        let prev = pairs_upto(r, m - 1);
        let k0 = part_at(m - 1);
        match written_value(r, k0) {
            Some(v) => {
                let cur = prev.push((k0, v));
                assert(pairs_upto(r, m) == cur);
                assert(written(cur)[0] == written(prev)[0]);
                assert(written(cur).skip(1) =~= written(prev).skip(1).push(piece(k0, v)));
                lemma_sep_tail_push(written(prev).skip(1), piece(k0, v), SEMICOLON);
                assert(text_upto(r, m) =~= written(cur)[0] + sep_tail(written(cur).skip(1), SEMICOLON));
            },
            None => {
                assert(text_upto(r, m) =~= text_upto(r, m - 1));
            },
        }
    }
}

/// Nine pieces after a text, grouped either way.
proof fn lemma_assoc(t: Seq<u8>, a: Seq<u8>, b: Seq<u8>, c: Seq<u8>, d: Seq<u8>, e: Seq<u8>, f: Seq<u8>, g: Seq<u8>, h: Seq<u8>, i: Seq<u8>)
    ensures
        t + (a + b + c + d + e + f + g + h + i) == t + a + b + c + d + e + f + g + h + i,
{
    assert(t + (a + b + c + d + e + f + g + h + i) =~= t + a + b + c + d + e + f + g + h + i);
}

/// Each optional part of a written rule is its name, `=` and its value
/// after a `;`, where the rule has it.
proof fn lemma_terms(r: Recur)
    ensures
        opt_part("UNTIL".spec_bytes(), match r.spec_until() {
            Some(d) => Some(d.ical()),
            None => None,
        }) == opt_text(r, RulePart::Until),
        opt_part("COUNT".spec_bytes(), number_text(r.spec_count())) == opt_text(r, RulePart::Count),
        opt_part("INTERVAL".spec_bytes(), number_text(r.spec_interval())) == opt_text(r, RulePart::Interval),
        list_part("BYSECOND".spec_bytes(), int_texts(r.spec_list(RulePart::BySecond))) == opt_text(r, RulePart::BySecond),
        list_part("BYMINUTE".spec_bytes(), int_texts(r.spec_list(RulePart::ByMinute))) == opt_text(r, RulePart::ByMinute),
        list_part("BYHOUR".spec_bytes(), int_texts(r.spec_list(RulePart::ByHour))) == opt_text(r, RulePart::ByHour),
        list_part("BYDAY".spec_bytes(), weekday_texts(r.spec_by_day())) == opt_text(r, RulePart::ByDay),
        list_part("BYMONTHDAY".spec_bytes(), int_texts(r.spec_list(RulePart::ByMonthDay))) == opt_text(r, RulePart::ByMonthDay),
        list_part("BYYEARDAY".spec_bytes(), int_texts(r.spec_list(RulePart::ByYearDay))) == opt_text(r, RulePart::ByYearDay),
        list_part("BYWEEKNO".spec_bytes(), int_texts(r.spec_list(RulePart::ByWeekNo))) == opt_text(r, RulePart::ByWeekNo),
        list_part("BYMONTH".spec_bytes(), int_texts(r.spec_list(RulePart::ByMonth))) == opt_text(r, RulePart::ByMonth),
        list_part("BYSETPOS".spec_bytes(), int_texts(r.spec_list(RulePart::BySetPos))) == opt_text(r, RulePart::BySetPos),
        opt_part("WKST".spec_bytes(), match r.spec_wkst() {
            Some(d) => Some(d.ical()),
            None => None,
        }) == opt_text(r, RulePart::Wkst),
{
    reveal(opt_part);
    reveal(list_part);
    assert(int_texts(r.spec_list(RulePart::BySecond)).len() == r.spec_list(RulePart::BySecond).len());
    assert(int_texts(r.spec_list(RulePart::ByMinute)).len() == r.spec_list(RulePart::ByMinute).len());
    assert(int_texts(r.spec_list(RulePart::ByHour)).len() == r.spec_list(RulePart::ByHour).len());
    assert(weekday_texts(r.spec_by_day()).len() == r.spec_by_day().len());
    assert(int_texts(r.spec_list(RulePart::ByMonthDay)).len() == r.spec_list(RulePart::ByMonthDay).len());
    assert(int_texts(r.spec_list(RulePart::ByYearDay)).len() == r.spec_list(RulePart::ByYearDay).len());
    assert(int_texts(r.spec_list(RulePart::ByWeekNo)).len() == r.spec_list(RulePart::ByWeekNo).len());
    assert(int_texts(r.spec_list(RulePart::ByMonth)).len() == r.spec_list(RulePart::ByMonth).len());
    assert(int_texts(r.spec_list(RulePart::BySetPos)).len() == r.spec_list(RulePart::BySetPos).len());
    match r.spec_until() {
        Some(d) => assert(opt_text(r, RulePart::Until) =~= seq![SEMICOLON] + "UNTIL".spec_bytes() + seq![EQUALS] + d.ical()),
        None => {},
    }
    match number_text(r.spec_count()) {
        Some(v) => assert(opt_text(r, RulePart::Count) =~= seq![SEMICOLON] + "COUNT".spec_bytes() + seq![EQUALS] + v),
        None => {},
    }
    match number_text(r.spec_interval()) {
        Some(v) => assert(opt_text(r, RulePart::Interval) =~= seq![SEMICOLON] + "INTERVAL".spec_bytes() + seq![EQUALS] + v),
        None => {},
    }
    match r.spec_wkst() {
        Some(d) => assert(opt_text(r, RulePart::Wkst) =~= seq![SEMICOLON] + "WKST".spec_bytes() + seq![EQUALS] + d.ical()),
        None => {},
    }
    if r.spec_by_day().len() > 0 {
        assert(opt_text(r, RulePart::ByDay) =~= seq![SEMICOLON] + "BYDAY".spec_bytes() + seq![EQUALS] + joined(weekday_texts(r.spec_by_day()), COMMA));
    }
    if r.spec_list(RulePart::BySecond).len() > 0 {
        assert(opt_text(r, RulePart::BySecond) =~= seq![SEMICOLON] + "BYSECOND".spec_bytes() + seq![EQUALS] + joined(int_texts(r.spec_list(RulePart::BySecond)), COMMA));
    }
    if r.spec_list(RulePart::ByMinute).len() > 0 {
        assert(opt_text(r, RulePart::ByMinute) =~= seq![SEMICOLON] + "BYMINUTE".spec_bytes() + seq![EQUALS] + joined(int_texts(r.spec_list(RulePart::ByMinute)), COMMA));
    }
    if r.spec_list(RulePart::ByHour).len() > 0 {
        assert(opt_text(r, RulePart::ByHour) =~= seq![SEMICOLON] + "BYHOUR".spec_bytes() + seq![EQUALS] + joined(int_texts(r.spec_list(RulePart::ByHour)), COMMA));
    }
    if r.spec_list(RulePart::ByMonthDay).len() > 0 {
        assert(opt_text(r, RulePart::ByMonthDay) =~= seq![SEMICOLON] + "BYMONTHDAY".spec_bytes() + seq![EQUALS] + joined(int_texts(r.spec_list(RulePart::ByMonthDay)), COMMA));
    }
    if r.spec_list(RulePart::ByYearDay).len() > 0 {
        assert(opt_text(r, RulePart::ByYearDay) =~= seq![SEMICOLON] + "BYYEARDAY".spec_bytes() + seq![EQUALS] + joined(int_texts(r.spec_list(RulePart::ByYearDay)), COMMA));
    }
    if r.spec_list(RulePart::ByWeekNo).len() > 0 {
        assert(opt_text(r, RulePart::ByWeekNo) =~= seq![SEMICOLON] + "BYWEEKNO".spec_bytes() + seq![EQUALS] + joined(int_texts(r.spec_list(RulePart::ByWeekNo)), COMMA));
    }
    if r.spec_list(RulePart::ByMonth).len() > 0 {
        assert(opt_text(r, RulePart::ByMonth) =~= seq![SEMICOLON] + "BYMONTH".spec_bytes() + seq![EQUALS] + joined(int_texts(r.spec_list(RulePart::ByMonth)), COMMA));
    }
    if r.spec_list(RulePart::BySetPos).len() > 0 {
        assert(opt_text(r, RulePart::BySetPos) =~= seq![SEMICOLON] + "BYSETPOS".spec_bytes() + seq![EQUALS] + joined(int_texts(r.spec_list(RulePart::BySetPos)), COMMA));
    }
}

/// A rule is written as its parts in the written order.
pub proof fn lemma_ical_text(r: Recur)
    ensures
        r.ical() == text_upto(r, 14),
{
    lemma_terms(r);
    reveal_strlit("FREQ=");
    reveal_strlit("FREQ");
    vstd::string::is_ascii_spec_bytes("FREQ=");
    vstd::string::is_ascii_spec_bytes("FREQ");
    assert("FREQ=".spec_bytes() =~= "FREQ".spec_bytes() + seq![EQUALS]);
    assert(text_upto(r, 1) == piece(RulePart::Freq, r.spec_freq().ical()));
    assert(text_upto(r, 2) == text_upto(r, 1) + opt_text(r, RulePart::Until));
    assert(text_upto(r, 3) == text_upto(r, 2) + opt_text(r, RulePart::Count));
    assert(text_upto(r, 4) == text_upto(r, 3) + opt_text(r, RulePart::Interval));
    assert(text_upto(r, 5) == text_upto(r, 4) + opt_text(r, RulePart::BySecond));
    assert(text_upto(r, 6) == text_upto(r, 5) + opt_text(r, RulePart::ByMinute));
    assert(text_upto(r, 7) == text_upto(r, 6) + opt_text(r, RulePart::ByHour));
    assert(text_upto(r, 8) == text_upto(r, 7) + opt_text(r, RulePart::ByDay));
    assert(text_upto(r, 9) == text_upto(r, 8) + opt_text(r, RulePart::ByMonthDay));
    assert(text_upto(r, 10) == text_upto(r, 9) + opt_text(r, RulePart::ByYearDay));
    assert(text_upto(r, 11) == text_upto(r, 10) + opt_text(r, RulePart::ByWeekNo));
    assert(text_upto(r, 12) == text_upto(r, 11) + opt_text(r, RulePart::ByMonth));
    assert(text_upto(r, 13) == text_upto(r, 12) + opt_text(r, RulePart::BySetPos));
    assert(text_upto(r, 14) == text_upto(r, 13) + opt_text(r, RulePart::Wkst));
    assert(r.head_text() == text_upto(r, 4));
    lemma_assoc(
        text_upto(r, 4),
        opt_text(r, RulePart::BySecond),
        opt_text(r, RulePart::ByMinute),
        opt_text(r, RulePart::ByHour),
        opt_text(r, RulePart::ByDay),
        opt_text(r, RulePart::ByMonthDay),
        opt_text(r, RulePart::ByYearDay),
        opt_text(r, RulePart::ByWeekNo),
        opt_text(r, RulePart::ByMonth),
        opt_text(r, RulePart::BySetPos),
    );
}


/// Pieces without `d` joined with another byte hold no `d`.
pub proof fn lemma_lacks_joined(xs: Seq<Seq<u8>>, c: u8, d: u8)
    requires
        c != d,
        forall|i: int| 0 <= i < xs.len() ==> lacks(#[trigger] xs[i], d),
    ensures
        lacks(joined(xs, c), d),
    decreases xs.len(),
{
    if xs.len() > 1 {
        assert forall|i: int| 0 <= i < xs.drop_last().len() implies lacks(#[trigger] xs.drop_last()[i], d) by {
            assert(xs.drop_last()[i] == xs[i]);
        }
        lemma_lacks_joined(xs.drop_last(), c, d);
        assert(lacks(xs.last(), d));
        let j = joined(xs, c);
        let a = joined(xs.drop_last(), c);
        assert forall|i: int| 0 <= i < j.len() implies j[i] != d by {
            if i < a.len() {
                assert(j[i] == a[i]);
            } else if i > a.len() {
                assert(j[i] == xs.last()[i - a.len() - 1]);
            }
        }
    } else if xs.len() == 1 {
        assert(lacks(xs[0], d));
    }
}

/// A list of numbers of the list part `k`, in range, written, reads back
/// as itself and holds no `;`.
proof fn lemma_list_text(r: Recur, k: RulePart)
    requires
        in_shape(r.spec_list(k), k),
        k != RulePart::Freq && k != RulePart::Until && k != RulePart::Count && k != RulePart::Interval
            && k != RulePart::ByDay && k != RulePart::Wkst,
        r.spec_list(k).len() > 0,
    ensures
        num_list(pieces(joined(int_texts(r.spec_list(k)), COMMA), COMMA), list_shape(k).0, list_shape(k).1, list_shape(k).2, list_shape(k).3)
            == Some(r.spec_list(k)),
        lacks(joined(int_texts(r.spec_list(k)), COMMA), SEMICOLON),
{
    let s = r.spec_list(k);
    let ts = int_texts(s);
    assert forall|i: int| 0 <= i < ts.len() implies lacks(#[trigger] ts[i], COMMA) && lacks(ts[i], SEMICOLON) by {
        assert(ts[i] == integer_text(s[i]));
        lemma_integer_text_bytes(s[i]);
    }
    lemma_pieces_joined(ts, COMMA);
    lemma_lacks_joined(ts, COMMA, SEMICOLON);
    reveal_with_fuel(ten, 4);
    let sh = list_shape(k);
    assert(sh.1 == 2 || sh.1 == 3);
    assert forall|i: int| 0 <= i < s.len() implies sh.2 <= magn(#[trigger] s[i]) <= sh.3 && (sh.0 || s[i] >= 0)
        && magn(s[i]) < ten(sh.1 as nat) by {
        assert(if sh.0 {
            sh.2 <= magn(s[i]) <= sh.3
        } else {
            sh.2 <= s[i] <= sh.3
        });
    }
    lemma_num_list_text(s, sh.0, sh.1 as nat, sh.2, sh.3);
}

/// Each part `r` is written with reads back as that part of `r`, is a
/// value of the part, and holds no `;`.
pub proof fn lemma_holds(r: Recur, k: RulePart)
    requires
        r.well_formed(),
        r.spec_until() matches Some(d) ==> d.wf(),
    ensures
        r.holds(k, written_value(r, k)),
        written_value(r, k) matches Some(v) ==> value_ok(k, v) && lacks(v, SEMICOLON),
{
    match k {
        RulePart::Freq => {
            lemma_frequency_keyword(r.spec_freq());
        },
        RulePart::Until => {
            if let Some(d) = r.spec_until() {
                lemma_until_text(d);
            }
        },
        RulePart::Count => {
            if let Some(c) = r.spec_count() {
                reveal_with_fuel(ten, 11);
                lemma_rule_num_text(c as int, false, 10, 0, i32::MAX as int);
                lemma_integer_text_bytes(c as int);
            }
        },
        RulePart::Interval => {
            if let Some(c) = r.spec_interval() {
                reveal_with_fuel(ten, 11);
                lemma_rule_num_text(c as int, false, 10, 1, i32::MAX as int);
                lemma_integer_text_bytes(c as int);
            }
        },
        RulePart::ByDay => {
            let s = r.spec_by_day();
            if s.len() > 0 {
                let ts = weekday_texts(s);
                assert forall|i: int| 0 <= i < ts.len() implies lacks(#[trigger] ts[i], COMMA) && lacks(ts[i], SEMICOLON) by {
                    assert(ts[i] == weekday_text(s[i]));
                    lemma_weekday_num_text(s[i]);
                }
                lemma_pieces_joined(ts, COMMA);
                lemma_lacks_joined(ts, COMMA, SEMICOLON);
                lemma_weekday_list_text(s);
            }
        },
        RulePart::Wkst => {
            if let Some(d) = r.spec_wkst() {
                lemma_weekday_keyword(d);
            }
        },
        _ => {
            if r.spec_list(k).len() > 0 {
                lemma_list_text(r, k);
            }
        },
    }
}

/// A well-formed rule, written, parses, and parses back to itself.
pub proof fn lemma_recur_round_trip(r: Recur)
    requires
        r.well_formed(),
        r.spec_until() matches Some(d) ==> d.wf(),
    ensures
        Recur::parses(r.ical()),
        Recur::accepts(r.ical(), r),
{
    lemma_ical_text(r);
    lemma_text_upto(r, 14);
    lemma_pairs_upto(r, 14);
    let kvs = pairs_upto(r, 14);
    let ps = written(kvs);
    let n = ps.len() as int;
    assert forall|i: int| 0 <= i < ps.len() implies lacks(#[trigger] ps[i], SEMICOLON) && part_kind(ps[i]) == Some(kvs[i].0)
        && part_value(ps[i]) == kvs[i].1 && value_ok(kvs[i].0, kvs[i].1) by {
        let k = kvs[i].0;
        let v = kvs[i].1;
        assert(ps[i] == piece(k, v));
        lemma_holds(r, k);
        lemma_rule_name(k);
        lemma_piece_parts(k, v);
        let nm = rule_name(k);
        assert forall|j: int| 0 <= j < ps[i].len() implies ps[i][j] != SEMICOLON by {
            if j < nm.len() {
                assert(ps[i][j] == nm[j]);
            } else if j > nm.len() {
                assert(ps[i][j] == v[j - nm.len() - 1]);
            }
        }
    }
    assert forall|i: int| 0 <= i < ps.skip(1).len() implies lacks(#[trigger] ps.skip(1)[i], SEMICOLON) by {
        assert(ps.skip(1)[i] == ps[i + 1]);
    }
    lemma_pieces_sep(ps[0], ps.skip(1), SEMICOLON);
    assert(seq![ps[0]] + ps.skip(1) =~= ps);
    assert(pieces(r.ical(), SEMICOLON) == ps);
    assert forall|i: int| 0 <= i < n implies crate::values::recur::part_ok(#[trigger] ps[i]) by {
    }
    assert forall|i: int, j: int| 0 <= i < j < n implies part_kind(#[trigger] ps[i]) != part_kind(#[trigger] ps[j]) by {
        assert(rank(kvs[i].0) < rank(kvs[j].0));
    }
    assert(rule_at(ps, n, RulePart::Freq) == written_value(r, RulePart::Freq));
    assert(rule_at(ps, n, RulePart::Until) == written_value(r, RulePart::Until));
    assert(rule_at(ps, n, RulePart::Count) == written_value(r, RulePart::Count));
    assert forall|k: RulePart| #[trigger] r.holds(k, rule_at(ps, ps.len() as int, k)) by {
        assert(rule_at(ps, n, k) == written_value(r, k));
        lemma_holds(r, k);
    }
}

} // verus!
