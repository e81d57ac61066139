//! Calendar components.

use vstd::prelude::*;
use vstd::utf8::valid_utf8;
use vstd::string::StringSliceAdditionalSpecFns;
use crate::bytes::{append_str, lemma_ascii_seq_valid, CR, LF};
use crate::properties::component::datetime::{
    exdate_check, exdate_tzid_check, rdate_check, rdate_tzid_check, until_check, value_type_check,
    DateTimeDue, DateTimeEnd, DateTimeStart,
};
use crate::properties::component::recurrence::{ExceptionDateTimes, RRule, RecurrenceDateTimes};
use crate::values::datetime::DateOrDatetime;
use crate::values::Ical;
use crate::itip::ItipError;

pub mod unknown;
pub mod free_busy;
pub mod vlocation;
pub mod alarm;
pub mod event;
pub mod todo;
pub mod journal;
pub mod availability;
pub mod timezone;

verus! {

/// Why a component can't be built from the properties it was given.
#[derive(Debug, Clone, Copy, PartialEq, Eq)]
pub enum ComponentError {
    /// A property the component requires is missing.
    MissingField(&'static str),
    /// The first property's value type differs from the second's, which it
    /// must match.
    MismatchedValueType(&'static str, &'static str),
    /// The first property's `TZID` differs from the second's, which it must
    /// match.
    MismatchedTzid(&'static str, &'static str),
    /// The first is present without the second, which it requires.
    Requires(&'static str, &'static str),
    /// The component needs at least one of the second.
    RequiresAtLeastOne(&'static str, &'static str),
    /// The first is not allowed in the second.
    NotAllowed(&'static str, &'static str),
    /// The calendar's `METHOD` names an iTIP method (RFC 5546) whose
    /// restrictions its components break.
    Itip(ItipError),
}

/// A content line and its CRLF.
#[verifier::opaque]
pub open spec fn line<T: Ical>(x: T) -> Seq<u8> {
    x.ical() + seq![CR, LF]
}

/// A content line for the value, when there is one.
#[verifier::opaque]
pub open spec fn opt_line<T: Ical>(x: Option<T>) -> Seq<u8> {
    match x {
        Some(v) => line(v),
        None => seq![],
    }
}

/// A content line for each value, in order.
#[verifier::opaque]
pub open spec fn lines<T: Ical>(xs: Seq<T>) -> Seq<u8>
    decreases xs.len(),
{
    if xs.len() == 0 {
        seq![]
    } else {
        lines(xs.drop_last()) + line(xs.last())
    }
}

/// Components written one after another; each ends with its own CRLF.
#[verifier::opaque]
pub open spec fn blocks<T: Ical>(xs: Seq<T>) -> Seq<u8>
    decreases xs.len(),
{
    if xs.len() == 0 {
        seq![]
    } else {
        blocks(xs.drop_last()) + xs.last().ical()
    }
}

pub proof fn lemma_blocks_valid<T: Ical>(xs: Seq<T>)
    ensures
        valid_utf8(blocks(xs)),
    decreases xs.len(),
{
    reveal(blocks);
    if xs.len() == 0 {
        lemma_ascii_seq_valid(Seq::<u8>::empty());
    } else {
        lemma_blocks_valid(xs.drop_last());
        xs.last().lemma_ical_valid();
        vstd::utf8::valid_utf8_concat(blocks(xs.drop_last()), xs.last().ical());
    }
}

/// Writes each component, one after another.
pub fn write_blocks<T: Ical>(xs: &[T], out: &mut Vec<u8>)
    ensures
        final(out)@ == old(out)@ + blocks(xs@),
{
    reveal(blocks);
    let ghost start = out@;
    let mut i: usize = 0;
    assert(xs@.take(0) =~= Seq::<T>::empty());
    assert(out@ =~= start + blocks(xs@.take(0)));
    while i < xs.len()
        invariant
            i <= xs.len(),
            out@ == start + blocks(xs@.take(i as int)),
        decreases xs.len() - i,
    {
        xs[i].write_to(out);
        assert(xs@.take(i + 1).drop_last() =~= xs@.take(i as int));
        reveal(blocks);
        assert(out@ =~= start + blocks(xs@.take(i + 1)));
        i += 1;
    }
    assert(xs@.take(xs.len() as int) =~= xs@);
}

/// `BEGIN:` or `END:` and the component's name, as a line.
pub open spec fn delimiter(word: &str, name: &str) -> Seq<u8> {
    word.spec_bytes() + name.spec_bytes() + seq![CR, LF]
}

pub proof fn lemma_crlf_valid()
    ensures
        valid_utf8(seq![CR, LF]),
{
    let crlf = seq![CR, LF];
    assert forall|i: int| 0 <= i < crlf.len() implies #[trigger] crlf[i] < 128 by {
    }
    lemma_ascii_seq_valid(crlf);
}

/// Lines are valid UTF-8.
pub proof fn lemma_line_valid<T: Ical>(x: T)
    ensures
        valid_utf8(line(x)),
{
    reveal(line);
    x.lemma_ical_valid();
    lemma_crlf_valid();
    vstd::utf8::valid_utf8_concat(x.ical(), seq![CR, LF]);
}

pub proof fn lemma_opt_line_valid<T: Ical>(x: Option<T>)
    ensures
        valid_utf8(opt_line(x)),
{
    reveal(opt_line);
    match x {
        Some(v) => lemma_line_valid(v),
        None => lemma_ascii_seq_valid(Seq::<u8>::empty()),
    }
}

pub proof fn lemma_lines_valid<T: Ical>(xs: Seq<T>)
    ensures
        valid_utf8(lines(xs)),
    decreases xs.len(),
{
    reveal(lines);
    if xs.len() == 0 {
        lemma_ascii_seq_valid(Seq::<u8>::empty());
    } else {
        lemma_lines_valid(xs.drop_last());
        lemma_line_valid(xs.last());
        vstd::utf8::valid_utf8_concat(lines(xs.drop_last()), line(xs.last()));
    }
}

pub proof fn lemma_delimiter_valid(word: &str, name: &str)
    ensures
        valid_utf8(delimiter(word, name)),
{
    vstd::utf8::encode_utf8_valid_utf8(word@);
    vstd::utf8::encode_utf8_valid_utf8(name@);
    lemma_crlf_valid();
    vstd::utf8::valid_utf8_concat(word.spec_bytes(), name.spec_bytes());
    vstd::utf8::valid_utf8_concat(word.spec_bytes() + name.spec_bytes(), seq![CR, LF]);
}

/// Writes `x` as a line.
pub fn write_line<T: Ical>(x: &T, out: &mut Vec<u8>)
    ensures
        final(out)@ == old(out)@ + line(*x),
{
    reveal(line);
    x.write_to(out);
    out.push(CR);
    out.push(LF);
    assert(out@ =~= old(out)@ + line(*x));
}

/// Writes the value, when there is one, as a line.
pub fn write_opt_line<T: Ical>(x: &Option<T>, out: &mut Vec<u8>)
    ensures
        final(out)@ == old(out)@ + opt_line(*x),
{
    reveal(opt_line);
    match x {
        Some(v) => write_line(v, out),
        None => {
            assert(out@ =~= old(out)@ + opt_line(*x));
        },
    }
}

/// Writes each value as a line, in order.
pub fn write_lines<T: Ical>(xs: &[T], out: &mut Vec<u8>)
    ensures
        final(out)@ == old(out)@ + lines(xs@),
{
    reveal(lines);
    let ghost start = out@;
    let mut i: usize = 0;
    assert(xs@.take(0) =~= Seq::<T>::empty());
    assert(out@ =~= start + lines(xs@.take(0)));
    while i < xs.len()
        invariant
            i <= xs.len(),
            out@ == start + lines(xs@.take(i as int)),
        decreases xs.len() - i,
    {
        write_line(&xs[i], out);
        assert(xs@.take(i + 1).drop_last() =~= xs@.take(i as int));
        reveal(lines);
        assert(out@ =~= start + lines(xs@.take(i + 1)));
        i += 1;
    }
    assert(xs@.take(xs.len() as int) =~= xs@);
}

/// Writes `BEGIN:` or `END:` and the component's name, as a line.
pub fn write_delimiter(word: &str, name: &str, out: &mut Vec<u8>)
    ensures
        final(out)@ == old(out)@ + delimiter(word, name),
{
    append_str(out, word);
    append_str(out, name);
    out.push(CR);
    out.push(LF);
    assert(out@ =~= old(out)@ + delimiter(word, name));
}

/// The value of a `DTEND`, if there is one.
pub open spec fn end_value(e: Option<DateTimeEnd>) -> Option<DateOrDatetime> {
    match e {
        Some(x) => Some(x.spec_value()),
        None => None,
    }
}

/// The value of a `DUE`, if there is one.
pub open spec fn due_value(e: Option<DateTimeDue>) -> Option<DateOrDatetime> {
    match e {
        Some(x) => Some(x.spec_value()),
        None => None,
    }
}

/// The first of two outcomes that is an error, else success.
pub open spec fn first_err(a: Result<(), ComponentError>, b: Result<(), ComponentError>) -> Result<
    (),
    ComponentError,
> {
    if a is Err {
        a
    } else {
        b
    }
}

/// The checks a `DTSTART` makes of the properties beside it, in order:
/// the type of `RRULE`'s `UNTIL`, the type of the end (`DTEND` or `DUE`,
/// named `end_name`), the types of the `EXDATE` and `RDATE` values, and the
/// `TZID`s of `EXDATE` and `RDATE`; the first that fails is the outcome.
pub open spec fn start_checks(
    s: DateTimeStart,
    rrule: Option<RRule>,
    end: Option<DateOrDatetime>,
    end_name: &'static str,
    exdate: Seq<ExceptionDateTimes>,
    rdate: Seq<RecurrenceDateTimes>,
) -> Result<(), ComponentError> {
    first_err(
        until_check(s, rrule),
        first_err(
            value_type_check(s.spec_value(), end, end_name),
            first_err(
                exdate_check(s, exdate),
                first_err(
                    rdate_check(s, rdate),
                    first_err(exdate_tzid_check(s, exdate), rdate_tzid_check(s, rdate)),
                ),
            ),
        ),
    )
}

/// Runs the checks of [`start_checks`].
pub fn check_start(
    s: &DateTimeStart,
    rrule: Option<&RRule>,
    end: Option<&DateOrDatetime>,
    end_name: &'static str,
    exdate: &[ExceptionDateTimes],
    rdate: &[RecurrenceDateTimes],
) -> (r: Result<(), ComponentError>)
    ensures
        r == start_checks(
            *s,
            match rrule {
                Some(x) => Some(*x),
                None => None,
            },
            match end {
                Some(x) => Some(*x),
                None => None,
            },
            end_name,
            exdate@,
            rdate@,
        ),
{
    if let Err(e) = s.cmp_until(rrule) {
        return Err(e);
    }
    if let Err(e) = s.cmp_value_type(end, end_name) {
        return Err(e);
    }
    if let Err(e) = s.cmp_exdate(exdate) {
        return Err(e);
    }
    if let Err(e) = s.cmp_rdate(rdate) {
        return Err(e);
    }
    if let Err(e) = s.cmp_exdate_tzid(exdate) {
        return Err(e);
    }
    s.cmp_rdate_tzid(rdate)
}

} // verus!
