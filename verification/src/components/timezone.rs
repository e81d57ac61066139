//! Time zone definitions (RFC 5545 §3.6.5).

use vstd::prelude::*;
use vstd::utf8::valid_utf8;
use std::marker::PhantomData;
use crate::components::{
    blocks, delimiter, first_err, lemma_blocks_valid, lemma_delimiter_valid, lemma_line_valid, lemma_lines_valid,
    lemma_opt_line_valid, line, lines, opt_line, start_checks, check_start, write_blocks, write_delimiter,
    write_line, write_lines, write_opt_line,
    ComponentError,
};
use crate::properties::component::change::{LastModified};
use crate::properties::component::datetime::{DateTimeStart};
use crate::properties::component::descriptive::{Comment};
use crate::properties::component::recurrence::{ExceptionDateTimes, RRule, RecurrenceDateTimes};
use crate::properties::component::timezone::{TimeZoneIdentifier, TimeZoneName, TimeZoneOffsetFrom, TimeZoneOffsetTo, TimeZoneUrl};
use crate::properties::{Iana, Xprop};
use crate::properties::component::datetime::value_type_check;
use crate::values::datetime::DateOrDatetime;
use crate::values::Ical;
use crate::components::{due_value, end_value};
use vstd::string::StringSliceAdditionalSpecFns;

use crate::ast::property::Property;
use crate::properties::PropertyError;
verus! {

/// The properties of a [`Timezone`] or of a [`TimezoneBuilder`].
pub struct TimezoneParts {
    /// `tzid`.
    pub tzid: TimeZoneIdentifier,
    /// `last_mod`.
    pub last_mod: Option<LastModified>,
    /// `tz_url`.
    pub tz_url: Option<TimeZoneUrl>,
    /// `standardc`.
    pub standardc: Seq<TzProp>,
    /// `daylightc`.
    pub daylightc: Seq<TzProp>,
    /// `xprop`.
    pub xprop: Seq<Xprop>,
    /// `iana`.
    pub iana: Seq<Iana>,
}

/// A `VTIMEZONE` component (RFC 5545 §3.6.5): the rules of a time zone,
/// as its standard and daylight-saving observances.
#[derive(Debug)]
pub struct Timezone {
    tzid: TimeZoneIdentifier,
    last_mod: Option<LastModified>,
    tz_url: Option<TimeZoneUrl>,
    standardc: Vec<TzProp>,
    daylightc: Vec<TzProp>,
    xprop: Vec<Xprop>,
    iana: Vec<Iana>,
}

/// Lines 0 of a written [`Timezone`].
pub open spec fn timezone_lines_0(p: TimezoneParts) -> Seq<u8> {
    line(p.tzid)
        + opt_line(p.last_mod)
        + opt_line(p.tz_url)
        + observances("STANDARD", p.standardc)
        + observances("DAYLIGHT", p.daylightc)
        + lines(p.xprop)
        + lines(p.iana)
}

/// The lines of a written [`Timezone`], between its delimiters.
#[verifier::opaque]
pub open spec fn timezone_body(p: TimezoneParts) -> Seq<u8> {
    timezone_lines_0(p)
}

proof fn lemma_timezone_lines_0_valid(p: TimezoneParts)
    ensures
        valid_utf8(timezone_lines_0(p)),
{
    lemma_line_valid(p.tzid);
    lemma_opt_line_valid(p.last_mod);
    lemma_opt_line_valid(p.tz_url);
    lemma_observances_valid("STANDARD", p.standardc);
    lemma_observances_valid("DAYLIGHT", p.daylightc);
    lemma_lines_valid(p.xprop);
    lemma_lines_valid(p.iana);
    vstd::utf8::valid_utf8_concat(line(p.tzid), opt_line(p.last_mod));
    vstd::utf8::valid_utf8_concat(line(p.tzid) + opt_line(p.last_mod), opt_line(p.tz_url));
    vstd::utf8::valid_utf8_concat(line(p.tzid) + opt_line(p.last_mod) + opt_line(p.tz_url), observances("STANDARD", p.standardc));
    vstd::utf8::valid_utf8_concat(line(p.tzid) + opt_line(p.last_mod) + opt_line(p.tz_url) + observances("STANDARD", p.standardc), observances("DAYLIGHT", p.daylightc));
    vstd::utf8::valid_utf8_concat(line(p.tzid) + opt_line(p.last_mod) + opt_line(p.tz_url) + observances("STANDARD", p.standardc) + observances("DAYLIGHT", p.daylightc), lines(p.xprop));
    vstd::utf8::valid_utf8_concat(line(p.tzid) + opt_line(p.last_mod) + opt_line(p.tz_url) + observances("STANDARD", p.standardc) + observances("DAYLIGHT", p.daylightc) + lines(p.xprop), lines(p.iana));
}

proof fn lemma_timezone_body_valid(p: TimezoneParts)
    ensures
        valid_utf8(timezone_body(p)),
{
    reveal(timezone_body);
    lemma_timezone_lines_0_valid(p);
}

impl Timezone {
    /// The properties held.
    pub closed spec fn parts(&self) -> TimezoneParts {
        TimezoneParts {
            tzid: self.tzid,
            last_mod: self.last_mod,
            tz_url: self.tz_url,
            standardc: self.standardc@,
            daylightc: self.daylightc@,
            xprop: self.xprop@,
            iana: self.iana@,
        }
    }

    /// `tzid`.
    pub fn tzid(&self) -> (r: &TimeZoneIdentifier)
        ensures
            *r == self.parts().tzid,
    {
        &self.tzid
    }

    /// `last_mod`, if set.
    pub fn last_mod(&self) -> (r: Option<&LastModified>)
        ensures
            match r {
                Some(x) => self.parts().last_mod == Some(*x),
                None => self.parts().last_mod is None,
            },
    {
        self.last_mod.as_ref()
    }

    /// `tz_url`, if set.
    pub fn tz_url(&self) -> (r: Option<&TimeZoneUrl>)
        ensures
            match r {
                Some(x) => self.parts().tz_url == Some(*x),
                None => self.parts().tz_url is None,
            },
    {
        self.tz_url.as_ref()
    }

    /// `standardc`, in order.
    pub fn standardc(&self) -> (r: &[TzProp])
        ensures
            r@ == self.parts().standardc,
    {
        self.standardc.as_slice()
    }

    /// `daylightc`, in order.
    pub fn daylightc(&self) -> (r: &[TzProp])
        ensures
            r@ == self.parts().daylightc,
    {
        self.daylightc.as_slice()
    }

    /// `xprop`, in order.
    pub fn xprop(&self) -> (r: &[Xprop])
        ensures
            r@ == self.parts().xprop,
    {
        self.xprop.as_slice()
    }

    /// `iana`, in order.
    pub fn iana(&self) -> (r: &[Iana])
        ensures
            r@ == self.parts().iana,
    {
        self.iana.as_slice()
    }

    fn write_lines_0(&self, out: &mut Vec<u8>)
        ensures
            final(out)@ == old(out)@ + timezone_lines_0(self.parts()),
    {
        write_line(&self.tzid, out);
        write_opt_line(&self.last_mod, out);
        write_opt_line(&self.tz_url, out);
        write_observances("STANDARD", self.standardc.as_slice(), out);
        write_observances("DAYLIGHT", self.daylightc.as_slice(), out);
        write_lines(self.xprop.as_slice(), out);
        write_lines(self.iana.as_slice(), out);
        assert(out@ =~= old(out)@ + timezone_lines_0(self.parts()));
    }

    fn write_body(&self, out: &mut Vec<u8>)
        ensures
            final(out)@ == old(out)@ + timezone_body(self.parts()),
    {
        reveal(timezone_body);
        self.write_lines_0(out);
        assert(out@ =~= old(out)@ + timezone_body(self.parts()));
    }
}

impl Ical for Timezone {
    /// `BEGIN:VTIMEZONE`, a line for each property, each nested component, and
    /// `END:VTIMEZONE`.
    open spec fn ical(&self) -> Seq<u8> {
        delimiter("BEGIN:", "VTIMEZONE") + timezone_body(self.parts()) + delimiter("END:", "VTIMEZONE")
    }

    proof fn lemma_ical_valid(&self) {
        lemma_delimiter_valid("BEGIN:", "VTIMEZONE");
        lemma_delimiter_valid("END:", "VTIMEZONE");
        lemma_timezone_body_valid(self.parts());
        vstd::utf8::valid_utf8_concat(delimiter("BEGIN:", "VTIMEZONE"), timezone_body(self.parts()));
        vstd::utf8::valid_utf8_concat(
            delimiter("BEGIN:", "VTIMEZONE") + timezone_body(self.parts()),
            delimiter("END:", "VTIMEZONE"),
        );
    }

    fn write_to(&self, out: &mut Vec<u8>) {
        write_delimiter("BEGIN:", "VTIMEZONE", out);
        self.write_body(out);
        write_delimiter("END:", "VTIMEZONE", out);
        assert(out@ =~= old(out)@ + self.ical());
    }
}

/// What building a [`Timezone`] checks: that it has at least one
/// observance.
pub open spec fn timezone_check(p: TimezoneParts) -> Result<(), ComponentError> {
    if p.standardc.len() == 0 && p.daylightc.len() == 0 {
        Err(ComponentError::RequiresAtLeastOne("VTIMEZONE", "STANDARD or DAYLIGHT"))
    } else {
        Ok(())
    }
}

/// Builds a [`Timezone`].
#[derive(Debug)]
pub struct TimezoneBuilder {
    tzid: TimeZoneIdentifier,
    last_mod: Option<LastModified>,
    tz_url: Option<TimeZoneUrl>,
    standardc: Vec<TzProp>,
    daylightc: Vec<TzProp>,
    xprop: Vec<Xprop>,
    iana: Vec<Iana>,
}

impl TimezoneBuilder {
    /// The properties held.
    pub closed spec fn parts(&self) -> TimezoneParts {
        TimezoneParts {
            tzid: self.tzid,
            last_mod: self.last_mod,
            tz_url: self.tz_url,
            standardc: self.standardc@,
            daylightc: self.daylightc@,
            xprop: self.xprop@,
            iana: self.iana@,
        }
    }

    /// Sets `last_mod`.
    pub fn last_mod(self, v: LastModified) -> (r: TimezoneBuilder)
        ensures
            r.parts() == (TimezoneParts { last_mod: Some(v), ..self.parts() }),
    {
        let mut b = self;
        b.last_mod = Some(v);
        b
    }

    /// Sets `tz_url`.
    pub fn tz_url(self, v: TimeZoneUrl) -> (r: TimezoneBuilder)
        ensures
            r.parts() == (TimezoneParts { tz_url: Some(v), ..self.parts() }),
    {
        let mut b = self;
        b.tz_url = Some(v);
        b
    }

    /// Adds a `standardc`.
    pub fn standard(self, v: TzProp) -> (r: TimezoneBuilder)
        ensures
            r.parts() == (TimezoneParts { standardc: self.parts().standardc.push(v), ..self.parts() }),
    {
        let mut b = self;
        b.standardc.push(v);
        b
    }

    /// Adds a `daylightc`.
    pub fn daylight(self, v: TzProp) -> (r: TimezoneBuilder)
        ensures
            r.parts() == (TimezoneParts { daylightc: self.parts().daylightc.push(v), ..self.parts() }),
    {
        let mut b = self;
        b.daylightc.push(v);
        b
    }

    /// Adds a `xprop`.
    pub fn xprop(self, v: Xprop) -> (r: TimezoneBuilder)
        ensures
            r.parts() == (TimezoneParts { xprop: self.parts().xprop.push(v), ..self.parts() }),
    {
        let mut b = self;
        b.xprop.push(v);
        b
    }

    /// Adds a `iana`.
    pub fn iana(self, v: Iana) -> (r: TimezoneBuilder)
        ensures
            r.parts() == (TimezoneParts { iana: self.parts().iana.push(v), ..self.parts() }),
    {
        let mut b = self;
        b.iana.push(v);
        b
    }

    /// Checks the rules that hold between the properties, and builds the
    /// component.
    pub fn build(self) -> (r: Result<Timezone, ComponentError>)
        ensures
            r is Ok <==> timezone_check(self.parts()) is Ok,
            r matches Err(e) ==> timezone_check(self.parts()) == Err::<(), ComponentError>(e),
            r matches Ok(c) ==> c.parts() == self.parts(),
    {
        if self.standardc.len() == 0 && self.daylightc.len() == 0 {
            return Err(ComponentError::RequiresAtLeastOne("VTIMEZONE", "STANDARD or DAYLIGHT"));
        }
        Ok(
            Timezone {
                tzid: self.tzid,
                last_mod: self.last_mod,
                tz_url: self.tz_url,
                standardc: self.standardc,
                daylightc: self.daylightc,
                xprop: self.xprop,
                iana: self.iana,
            }
        )
    }
}

impl TimezoneBuilder {
    /// A builder for the time zone identified by `tzid`.
    pub fn new(tzid: TimeZoneIdentifier) -> (r: TimezoneBuilder)
        ensures
            r.parts() == (TimezoneParts { tzid, last_mod: None, tz_url: None, standardc: Seq::empty(), daylightc: Seq::empty(), xprop: Seq::empty(), iana: Seq::empty() }),
    {
        TimezoneBuilder {
            tzid,
            last_mod: None,
            tz_url: None,
            standardc: Vec::new(),
            daylightc: Vec::new(),
            xprop: Vec::new(),
            iana: Vec::new(),
        }
    }
}

/// The properties of a [`TzProp`] or of a [`TzPropBuilder`].
pub struct TzPropParts {
    /// `dtstart`.
    pub dtstart: DateTimeStart,
    /// `tz_offset_to`.
    pub tz_offset_to: TimeZoneOffsetTo,
    /// `tz_offset_from`.
    pub tz_offset_from: TimeZoneOffsetFrom,
    /// `rrule`.
    pub rrule: Option<RRule>,
    /// `comment`.
    pub comment: Seq<Comment>,
    /// `rdate`.
    pub rdate: Seq<RecurrenceDateTimes>,
    /// `tzname`.
    pub tzname: Seq<TimeZoneName>,
    /// `xprop`.
    pub xprop: Seq<Xprop>,
    /// `iana`.
    pub iana: Seq<Iana>,
}

/// An observance of a time zone (RFC 5545 §3.6.5): a `STANDARD` or a
/// `DAYLIGHT` sub-component, which one depending on the list of the
/// [`Timezone`] that holds it.
#[derive(Debug)]
pub struct TzProp {
    dtstart: DateTimeStart,
    tz_offset_to: TimeZoneOffsetTo,
    tz_offset_from: TimeZoneOffsetFrom,
    rrule: Option<RRule>,
    comment: Vec<Comment>,
    rdate: Vec<RecurrenceDateTimes>,
    tzname: Vec<TimeZoneName>,
    xprop: Vec<Xprop>,
    iana: Vec<Iana>,
}

/// Lines 0 of a written [`TzProp`].
pub open spec fn tzprop_lines_0(p: TzPropParts) -> Seq<u8> {
    line(p.dtstart)
        + line(p.tz_offset_to)
        + line(p.tz_offset_from)
        + opt_line(p.rrule)
        + lines(p.comment)
        + lines(p.rdate)
        + lines(p.tzname)
        + lines(p.xprop)
}

/// Lines 1 of a written [`TzProp`].
pub open spec fn tzprop_lines_1(p: TzPropParts) -> Seq<u8> {
    lines(p.iana)
}

/// The lines of a written [`TzProp`], between its delimiters.
#[verifier::opaque]
pub open spec fn tzprop_body(p: TzPropParts) -> Seq<u8> {
    tzprop_lines_0(p) + tzprop_lines_1(p)
}

proof fn lemma_tzprop_lines_0_valid(p: TzPropParts)
    ensures
        valid_utf8(tzprop_lines_0(p)),
{
    lemma_line_valid(p.dtstart);
    lemma_line_valid(p.tz_offset_to);
    lemma_line_valid(p.tz_offset_from);
    lemma_opt_line_valid(p.rrule);
    lemma_lines_valid(p.comment);
    lemma_lines_valid(p.rdate);
    lemma_lines_valid(p.tzname);
    lemma_lines_valid(p.xprop);
    vstd::utf8::valid_utf8_concat(line(p.dtstart), line(p.tz_offset_to));
    vstd::utf8::valid_utf8_concat(line(p.dtstart) + line(p.tz_offset_to), line(p.tz_offset_from));
    vstd::utf8::valid_utf8_concat(line(p.dtstart) + line(p.tz_offset_to) + line(p.tz_offset_from), opt_line(p.rrule));
    vstd::utf8::valid_utf8_concat(line(p.dtstart) + line(p.tz_offset_to) + line(p.tz_offset_from) + opt_line(p.rrule), lines(p.comment));
    vstd::utf8::valid_utf8_concat(line(p.dtstart) + line(p.tz_offset_to) + line(p.tz_offset_from) + opt_line(p.rrule) + lines(p.comment), lines(p.rdate));
    vstd::utf8::valid_utf8_concat(line(p.dtstart) + line(p.tz_offset_to) + line(p.tz_offset_from) + opt_line(p.rrule) + lines(p.comment) + lines(p.rdate), lines(p.tzname));
    vstd::utf8::valid_utf8_concat(line(p.dtstart) + line(p.tz_offset_to) + line(p.tz_offset_from) + opt_line(p.rrule) + lines(p.comment) + lines(p.rdate) + lines(p.tzname), lines(p.xprop));
}

proof fn lemma_tzprop_lines_1_valid(p: TzPropParts)
    ensures
        valid_utf8(tzprop_lines_1(p)),
{
    lemma_lines_valid(p.iana);
}

proof fn lemma_tzprop_body_valid(p: TzPropParts)
    ensures
        valid_utf8(tzprop_body(p)),
{
    reveal(tzprop_body);
    lemma_tzprop_lines_0_valid(p);
    lemma_tzprop_lines_1_valid(p);
    vstd::utf8::valid_utf8_concat(tzprop_lines_0(p), tzprop_lines_1(p));
}

impl TzProp {
    /// The properties held.
    pub closed spec fn parts(&self) -> TzPropParts {
        TzPropParts {
            dtstart: self.dtstart,
            tz_offset_to: self.tz_offset_to,
            tz_offset_from: self.tz_offset_from,
            rrule: self.rrule,
            comment: self.comment@,
            rdate: self.rdate@,
            tzname: self.tzname@,
            xprop: self.xprop@,
            iana: self.iana@,
        }
    }

    /// `dtstart`.
    pub fn dtstart(&self) -> (r: &DateTimeStart)
        ensures
            *r == self.parts().dtstart,
    {
        &self.dtstart
    }

    /// `tz_offset_to`.
    pub fn tz_offset_to(&self) -> (r: &TimeZoneOffsetTo)
        ensures
            *r == self.parts().tz_offset_to,
    {
        &self.tz_offset_to
    }

    /// `tz_offset_from`.
    pub fn tz_offset_from(&self) -> (r: &TimeZoneOffsetFrom)
        ensures
            *r == self.parts().tz_offset_from,
    {
        &self.tz_offset_from
    }

    /// `rrule`, if set.
    pub fn rrule(&self) -> (r: Option<&RRule>)
        ensures
            match r {
                Some(x) => self.parts().rrule == Some(*x),
                None => self.parts().rrule is None,
            },
    {
        self.rrule.as_ref()
    }

    /// `comment`, in order.
    pub fn comment(&self) -> (r: &[Comment])
        ensures
            r@ == self.parts().comment,
    {
        self.comment.as_slice()
    }

    /// `rdate`, in order.
    pub fn rdate(&self) -> (r: &[RecurrenceDateTimes])
        ensures
            r@ == self.parts().rdate,
    {
        self.rdate.as_slice()
    }

    /// `tzname`, in order.
    pub fn tzname(&self) -> (r: &[TimeZoneName])
        ensures
            r@ == self.parts().tzname,
    {
        self.tzname.as_slice()
    }

    /// `xprop`, in order.
    pub fn xprop(&self) -> (r: &[Xprop])
        ensures
            r@ == self.parts().xprop,
    {
        self.xprop.as_slice()
    }

    /// `iana`, in order.
    pub fn iana(&self) -> (r: &[Iana])
        ensures
            r@ == self.parts().iana,
    {
        self.iana.as_slice()
    }

    fn write_lines_0(&self, out: &mut Vec<u8>)
        ensures
            final(out)@ == old(out)@ + tzprop_lines_0(self.parts()),
    {
        write_line(&self.dtstart, out);
        write_line(&self.tz_offset_to, out);
        write_line(&self.tz_offset_from, out);
        write_opt_line(&self.rrule, out);
        write_lines(self.comment.as_slice(), out);
        write_lines(self.rdate.as_slice(), out);
        write_lines(self.tzname.as_slice(), out);
        write_lines(self.xprop.as_slice(), out);
        assert(out@ =~= old(out)@ + tzprop_lines_0(self.parts()));
    }

    fn write_lines_1(&self, out: &mut Vec<u8>)
        ensures
            final(out)@ == old(out)@ + tzprop_lines_1(self.parts()),
    {
        write_lines(self.iana.as_slice(), out);
        assert(out@ =~= old(out)@ + tzprop_lines_1(self.parts()));
    }

    fn write_body(&self, out: &mut Vec<u8>)
        ensures
            final(out)@ == old(out)@ + tzprop_body(self.parts()),
    {
        reveal(tzprop_body);
        self.write_lines_0(out);
        self.write_lines_1(out);
        assert(out@ =~= old(out)@ + tzprop_body(self.parts()));
    }
}

/// An observance written as the sub-component `name`.
pub open spec fn observance(name: &str, p: TzPropParts) -> Seq<u8> {
    delimiter("BEGIN:", name) + tzprop_body(p) + delimiter("END:", name)
}

/// Observances, each written as the sub-component `name`, in order.
#[verifier::opaque]
pub open spec fn observances(name: &str, ps: Seq<TzProp>) -> Seq<u8>
    decreases ps.len(),
{
    if ps.len() == 0 {
        seq![]
    } else {
        observances(name, ps.drop_last()) + observance(name, ps.last().parts())
    }
}

proof fn lemma_observances_valid(name: &str, ps: Seq<TzProp>)
    ensures
        valid_utf8(observances(name, ps)),
    decreases ps.len(),
{
    reveal(observances);
    if ps.len() == 0 {
        crate::bytes::lemma_ascii_seq_valid(Seq::<u8>::empty());
    } else {
        lemma_observances_valid(name, ps.drop_last());
        let p = ps.last().parts();
        lemma_delimiter_valid("BEGIN:", name);
        lemma_delimiter_valid("END:", name);
        lemma_tzprop_body_valid(p);
        vstd::utf8::valid_utf8_concat(delimiter("BEGIN:", name), tzprop_body(p));
        vstd::utf8::valid_utf8_concat(delimiter("BEGIN:", name) + tzprop_body(p), delimiter("END:", name));
        vstd::utf8::valid_utf8_concat(observances(name, ps.drop_last()), observance(name, p));
    }
}

fn write_observances(name: &str, ps: &[TzProp], out: &mut Vec<u8>)
    ensures
        final(out)@ == old(out)@ + observances(name, ps@),
{
    reveal(observances);
    let ghost start = out@;
    let mut i: usize = 0;
    assert(ps@.take(0) =~= Seq::<TzProp>::empty());
    assert(out@ =~= start + observances(name, ps@.take(0)));
    while i < ps.len()
        invariant
            i <= ps.len(),
            out@ == start + observances(name, ps@.take(i as int)),
        decreases ps.len() - i,
    {
        let ghost mid = out@;
        write_delimiter("BEGIN:", name, out);
        ps[i].write_body(out);
        write_delimiter("END:", name, out);
        assert(out@ =~= mid + observance(name, ps@[i as int].parts()));
        assert(ps@.take(i + 1).drop_last() =~= ps@.take(i as int));
        assert(ps@.take(i + 1).last() == ps@[i as int]);
        reveal(observances);
        assert(observances(name, ps@.take(i + 1)) == observances(name, ps@.take(i as int)) + observance(
            name,
            ps@[i as int].parts(),
        ));
        assert(out@ =~= start + observances(name, ps@.take(i + 1)));
        i += 1;
    }
    assert(ps@.take(ps.len() as int) =~= ps@);
}

/// What building a [`TzProp`] checks of its `DTSTART`, in order; the
/// first failure is the outcome.
pub open spec fn tzprop_check(p: TzPropParts) -> Result<(), ComponentError> {
    start_checks(p.dtstart, p.rrule, None, "DTEND", Seq::empty(), p.rdate)
}

/// Builds a [`TzProp`].
#[derive(Debug)]
pub struct TzPropBuilder {
    dtstart: DateTimeStart,
    tz_offset_to: TimeZoneOffsetTo,
    tz_offset_from: TimeZoneOffsetFrom,
    rrule: Option<RRule>,
    comment: Vec<Comment>,
    rdate: Vec<RecurrenceDateTimes>,
    tzname: Vec<TimeZoneName>,
    xprop: Vec<Xprop>,
    iana: Vec<Iana>,
}

impl TzPropBuilder {
    /// The properties held.
    pub closed spec fn parts(&self) -> TzPropParts {
        TzPropParts {
            dtstart: self.dtstart,
            tz_offset_to: self.tz_offset_to,
            tz_offset_from: self.tz_offset_from,
            rrule: self.rrule,
            comment: self.comment@,
            rdate: self.rdate@,
            tzname: self.tzname@,
            xprop: self.xprop@,
            iana: self.iana@,
        }
    }

    /// Sets `rrule`.
    pub fn rrule(self, v: RRule) -> (r: TzPropBuilder)
        ensures
            r.parts() == (TzPropParts { rrule: Some(v), ..self.parts() }),
    {
        let mut b = self;
        b.rrule = Some(v);
        b
    }

    /// Adds a `comment`.
    pub fn comment(self, v: Comment) -> (r: TzPropBuilder)
        ensures
            r.parts() == (TzPropParts { comment: self.parts().comment.push(v), ..self.parts() }),
    {
        let mut b = self;
        b.comment.push(v);
        b
    }

    /// Adds a `rdate`.
    pub fn rdate(self, v: RecurrenceDateTimes) -> (r: TzPropBuilder)
        ensures
            r.parts() == (TzPropParts { rdate: self.parts().rdate.push(v), ..self.parts() }),
    {
        let mut b = self;
        b.rdate.push(v);
        b
    }

    /// Adds a `tzname`.
    pub fn tzname(self, v: TimeZoneName) -> (r: TzPropBuilder)
        ensures
            r.parts() == (TzPropParts { tzname: self.parts().tzname.push(v), ..self.parts() }),
    {
        let mut b = self;
        b.tzname.push(v);
        b
    }

    /// Adds a `xprop`.
    pub fn xprop(self, v: Xprop) -> (r: TzPropBuilder)
        ensures
            r.parts() == (TzPropParts { xprop: self.parts().xprop.push(v), ..self.parts() }),
    {
        let mut b = self;
        b.xprop.push(v);
        b
    }

    /// Adds a `iana`.
    pub fn iana(self, v: Iana) -> (r: TzPropBuilder)
        ensures
            r.parts() == (TzPropParts { iana: self.parts().iana.push(v), ..self.parts() }),
    {
        let mut b = self;
        b.iana.push(v);
        b
    }

    /// Checks the rules that hold between the properties, and builds the
    /// component.
    pub fn build(self) -> (r: Result<TzProp, ComponentError>)
        ensures
            r is Ok <==> tzprop_check(self.parts()) is Ok,
            r matches Err(e) ==> tzprop_check(self.parts()) == Err::<(), ComponentError>(e),
            r matches Ok(c) ==> c.parts() == self.parts(),
    {
        let no_exdate: Vec<ExceptionDateTimes> = Vec::new();
        if let Err(e) = check_start(&self.dtstart, self.rrule.as_ref(), None, "DTEND", no_exdate.as_slice(), self.rdate.as_slice()) {
            return Err(e);
        }
        Ok(
            TzProp {
                dtstart: self.dtstart,
                tz_offset_to: self.tz_offset_to,
                tz_offset_from: self.tz_offset_from,
                rrule: self.rrule,
                comment: self.comment,
                rdate: self.rdate,
                tzname: self.tzname,
                xprop: self.xprop,
                iana: self.iana,
            }
        )
    }
}

impl TzPropBuilder {
    /// A builder with the three properties an observance requires.
    pub fn new(dtstart: DateTimeStart, tz_offset_to: TimeZoneOffsetTo, tz_offset_from: TimeZoneOffsetFrom) -> (r: TzPropBuilder)
        ensures
            r.parts() == (TzPropParts { dtstart, tz_offset_to, tz_offset_from, rrule: None, comment: Seq::empty(), rdate: Seq::empty(), tzname: Seq::empty(), xprop: Seq::empty(), iana: Seq::empty() }),
    {
        TzPropBuilder {
            dtstart,
            tz_offset_to,
            tz_offset_from,
            rrule: None,
            comment: Vec::new(),
            rdate: Vec::new(),
            tzname: Vec::new(),
            xprop: Vec::new(),
            iana: Vec::new(),
        }
    }
}


/// The properties of a [`TimezoneParseBuilder`], as values.
pub ghost struct TimezoneParseParts {
    /// `tzid`.
    pub tzid: Option<TimeZoneIdentifier>,
    /// `last_mod`.
    pub last_mod: Option<LastModified>,
    /// `tz_url`.
    pub tz_url: Option<TimeZoneUrl>,
    /// `standardc`.
    pub standardc: Seq<TzProp>,
    /// `daylightc`.
    pub daylightc: Seq<TzProp>,
    /// `xprop`.
    pub xprop: Seq<Xprop>,
    /// `iana`.
    pub iana: Seq<Iana>,
}

/// Collects the content lines of a component being read, in the order
/// they come, and builds it at its end.
#[derive(Debug)]
pub struct TimezoneParseBuilder {
    tzid: Option<TimeZoneIdentifier>,
    last_mod: Option<LastModified>,
    tz_url: Option<TimeZoneUrl>,
    standardc: Vec<TzProp>,
    daylightc: Vec<TzProp>,
    xprop: Vec<Xprop>,
    iana: Vec<Iana>,
}

/// What reading the property `p` does to the properties `q` collected so
/// far: a property held once may not come twice, one held many times is
/// added, and one the component doesn't hold is refused.
#[verifier::opaque]
pub open spec fn timezone_ingest(q: TimezoneParseParts, p: Property) -> Result<TimezoneParseParts, PropertyError> {
    match p {
        Property::TimeZoneIdentifier(x) => if q.tzid is Some {
            Err(PropertyError::DuplicateProperty("TZID"))
        } else {
            Ok(TimezoneParseParts { tzid: Some(x), ..q })
        },
        Property::LastModified(x) => if q.last_mod is Some {
            Err(PropertyError::DuplicateProperty("LAST-MODIFIED"))
        } else {
            Ok(TimezoneParseParts { last_mod: Some(x), ..q })
        },
        Property::TimeZoneUrl(x) => if q.tz_url is Some {
            Err(PropertyError::DuplicateProperty("TZURL"))
        } else {
            Ok(TimezoneParseParts { tz_url: Some(x), ..q })
        },
        Property::Xprop(x) => Ok(TimezoneParseParts { xprop: q.xprop.push(x), ..q }),
        Property::Iana(x) => Ok(TimezoneParseParts { iana: q.iana.push(x), ..q }),
        _ => Err(PropertyError::UnexpectedProperty),
    }
}

/// The properties `props` read one after the other into an empty
/// [`TimezoneParseBuilder`], or the first refusal.
pub open spec fn timezone_fold(props: Seq<Property>) -> Result<TimezoneParseParts, PropertyError>
    decreases props.len(),
{
    if props.len() == 0 {
        Ok(TimezoneParseBuilder::empty_parts())
    } else {
        match timezone_fold(props.drop_last()) {
            Ok(q) => timezone_ingest(q, props.last()),
            Err(e) => Err(e),
        }
    }
}

/// Reading a property doesn't look at, nor touch, the nested components.
pub proof fn lemma_timezone_ingest_nested(q: TimezoneParseParts, p: Property, standardc: Seq<TzProp>, daylightc: Seq<TzProp>)
    ensures
        timezone_ingest(TimezoneParseParts { standardc: standardc, daylightc: daylightc, ..q }, p) == match timezone_ingest(q, p) {
            Ok(q2) => Ok(TimezoneParseParts { standardc: standardc, daylightc: daylightc, ..q2 }),
            Err(e) => Err(e),
        },
{
    reveal(timezone_ingest);
}

/// The properties `q` holds, once those it requires are there.
pub open spec fn timezone_parts_of(q: TimezoneParseParts) -> TimezoneParts {
    TimezoneParts {
        tzid: q.tzid->0,
        last_mod: q.last_mod,
        tz_url: q.tz_url,
        standardc: q.standardc,
        daylightc: q.daylightc,
        xprop: q.xprop,
        iana: q.iana,
    }
}

/// The first property `q` requires and lacks, if any.
pub open spec fn timezone_missing(q: TimezoneParseParts) -> Option<&'static str> {
    if q.tzid is None {
        Some("TZID")
    } else {
        None
    }
}

impl TimezoneParseBuilder {
    /// The properties collected.
    pub closed spec fn parts(&self) -> TimezoneParseParts {
        TimezoneParseParts {
            tzid: self.tzid,
            last_mod: self.last_mod,
            tz_url: self.tz_url,
            standardc: self.standardc@,
            daylightc: self.daylightc@,
            xprop: self.xprop@,
            iana: self.iana@,
        }
    }

    /// Nothing collected yet.
    pub open spec fn empty_parts() -> TimezoneParseParts {
        TimezoneParseParts {
            tzid: None,
            last_mod: None,
            tz_url: None,
            standardc: Seq::empty(),
            daylightc: Seq::empty(),
            xprop: Seq::empty(),
            iana: Seq::empty(),
        }
    }

    /// A component with nothing collected yet.
    pub fn new() -> (r: TimezoneParseBuilder)
        ensures
            r.parts() == TimezoneParseBuilder::empty_parts(),
    {
        TimezoneParseBuilder {
            tzid: None,
            last_mod: None,
            tz_url: None,
            standardc: Vec::new(),
            daylightc: Vec::new(),
            xprop: Vec::new(),
            iana: Vec::new(),
        }
    }

    /// Reads one property into the component.
    pub fn ingest(&mut self, p: Property) -> (r: Result<(), PropertyError>)
        ensures
            match timezone_ingest(old(self).parts(), p) {
                Ok(q) => r is Ok && final(self).parts() == q,
                Err(e) => r == Err::<(), PropertyError>(e) && final(self).parts() == old(self).parts(),
            },
            final(self).parts().standardc == old(self).parts().standardc,
            final(self).parts().daylightc == old(self).parts().daylightc,
    {
        reveal(timezone_ingest);
        match p {
            Property::TimeZoneIdentifier(x) => {
                if self.tzid.is_some() {
                    return Err(PropertyError::DuplicateProperty("TZID"));
                }
                self.tzid = Some(x);
                Ok(())
            },
            Property::LastModified(x) => {
                if self.last_mod.is_some() {
                    return Err(PropertyError::DuplicateProperty("LAST-MODIFIED"));
                }
                self.last_mod = Some(x);
                Ok(())
            },
            Property::TimeZoneUrl(x) => {
                if self.tz_url.is_some() {
                    return Err(PropertyError::DuplicateProperty("TZURL"));
                }
                self.tz_url = Some(x);
                Ok(())
            },
            Property::Xprop(x) => {
                self.xprop.push(x);
                Ok(())
            },
            Property::Iana(x) => {
                self.iana.push(x);
                Ok(())
            },
            _ => Err(PropertyError::UnexpectedProperty),
        }
    }

    /// Adds a nested component read in full.
    pub fn push_standardc(&mut self, v: TzProp)
        ensures
            final(self).parts() == (TimezoneParseParts { standardc: old(self).parts().standardc.push(v), ..old(self).parts() }),
    {
        self.standardc.push(v);
    }

    /// Adds a nested component read in full.
    pub fn push_daylightc(&mut self, v: TzProp)
        ensures
            final(self).parts() == (TimezoneParseParts { daylightc: old(self).parts().daylightc.push(v), ..old(self).parts() }),
    {
        self.daylightc.push(v);
    }

    /// Builds the component: the properties it requires must be there,
    /// and then it is checked as its builder checks it.
    pub fn finish(self) -> (r: Result<Timezone, ComponentError>)
        ensures
            timezone_missing(self.parts()) matches Some(n) ==> r == Err::<Timezone, ComponentError>(ComponentError::MissingField(n)),
            timezone_missing(self.parts()) is None ==> (r is Ok <==> timezone_check(timezone_parts_of(self.parts())) is Ok),
            timezone_missing(self.parts()) is None ==> (r matches Err(e) ==> timezone_check(timezone_parts_of(self.parts())) == Err::<(), ComponentError>(e)),
            r matches Ok(c) ==> c.parts() == timezone_parts_of(self.parts()),
    {
        let TimezoneParseBuilder { tzid, last_mod, tz_url, standardc, daylightc, xprop, iana } = self;
        let tzid = match tzid {
            Some(x) => x,
            None => {
                return Err(ComponentError::MissingField("TZID"));
            },
        };
        let b = TimezoneBuilder {
            tzid,
            last_mod,
            tz_url,
            standardc,
            daylightc,
            xprop,
            iana,
        };
        b.build()
    }
}

/// The properties of a [`TzPropParseBuilder`], as values.
pub ghost struct TzPropParseParts {
    /// `dtstart`.
    pub dtstart: Option<DateTimeStart>,
    /// `tz_offset_to`.
    pub tz_offset_to: Option<TimeZoneOffsetTo>,
    /// `tz_offset_from`.
    pub tz_offset_from: Option<TimeZoneOffsetFrom>,
    /// `rrule`.
    pub rrule: Option<RRule>,
    /// `comment`.
    pub comment: Seq<Comment>,
    /// `rdate`.
    pub rdate: Seq<RecurrenceDateTimes>,
    /// `tzname`.
    pub tzname: Seq<TimeZoneName>,
    /// `xprop`.
    pub xprop: Seq<Xprop>,
    /// `iana`.
    pub iana: Seq<Iana>,
}

/// Collects the content lines of a component being read, in the order
/// they come, and builds it at its end.
#[derive(Debug)]
pub struct TzPropParseBuilder {
    dtstart: Option<DateTimeStart>,
    tz_offset_to: Option<TimeZoneOffsetTo>,
    tz_offset_from: Option<TimeZoneOffsetFrom>,
    rrule: Option<RRule>,
    comment: Vec<Comment>,
    rdate: Vec<RecurrenceDateTimes>,
    tzname: Vec<TimeZoneName>,
    xprop: Vec<Xprop>,
    iana: Vec<Iana>,
}

/// What reading the property `p` does to the properties `q` collected so
/// far: a property held once may not come twice, one held many times is
/// added, and one the component doesn't hold is refused.
#[verifier::opaque]
pub open spec fn tzprop_ingest(q: TzPropParseParts, p: Property) -> Result<TzPropParseParts, PropertyError> {
    match p {
        Property::DateTimeStart(x) => if q.dtstart is Some {
            Err(PropertyError::DuplicateProperty("DTSTART"))
        } else {
            Ok(TzPropParseParts { dtstart: Some(x), ..q })
        },
        Property::TimeZoneOffsetTo(x) => if q.tz_offset_to is Some {
            Err(PropertyError::DuplicateProperty("TZOFFSETTO"))
        } else {
            Ok(TzPropParseParts { tz_offset_to: Some(x), ..q })
        },
        Property::TimeZoneOffsetFrom(x) => if q.tz_offset_from is Some {
            Err(PropertyError::DuplicateProperty("TZOFFSETFROM"))
        } else {
            Ok(TzPropParseParts { tz_offset_from: Some(x), ..q })
        },
        Property::RRule(x) => if q.rrule is Some {
            Err(PropertyError::DuplicateProperty("RRULE"))
        } else {
            Ok(TzPropParseParts { rrule: Some(x), ..q })
        },
        Property::Comment(x) => Ok(TzPropParseParts { comment: q.comment.push(x), ..q }),
        Property::RecurrenceDateTimes(x) => Ok(TzPropParseParts { rdate: q.rdate.push(x), ..q }),
        Property::TimeZoneName(x) => Ok(TzPropParseParts { tzname: q.tzname.push(x), ..q }),
        Property::Xprop(x) => Ok(TzPropParseParts { xprop: q.xprop.push(x), ..q }),
        Property::Iana(x) => Ok(TzPropParseParts { iana: q.iana.push(x), ..q }),
        _ => Err(PropertyError::UnexpectedProperty),
    }
}

/// The properties `props` read one after the other into an empty
/// [`TzPropParseBuilder`], or the first refusal.
pub open spec fn tzprop_fold(props: Seq<Property>) -> Result<TzPropParseParts, PropertyError>
    decreases props.len(),
{
    if props.len() == 0 {
        Ok(TzPropParseBuilder::empty_parts())
    } else {
        match tzprop_fold(props.drop_last()) {
            Ok(q) => tzprop_ingest(q, props.last()),
            Err(e) => Err(e),
        }
    }
}

/// The properties `q` holds, once those it requires are there.
pub open spec fn tzprop_parts_of(q: TzPropParseParts) -> TzPropParts {
    TzPropParts {
        dtstart: q.dtstart->0,
        tz_offset_to: q.tz_offset_to->0,
        tz_offset_from: q.tz_offset_from->0,
        rrule: q.rrule,
        comment: q.comment,
        rdate: q.rdate,
        tzname: q.tzname,
        xprop: q.xprop,
        iana: q.iana,
    }
}

/// The first property `q` requires and lacks, if any.
pub open spec fn tzprop_missing(q: TzPropParseParts) -> Option<&'static str> {
    if q.dtstart is None {
        Some("DTSTART")
    } else if q.tz_offset_to is None {
        Some("TZOFFSETTO")
    } else if q.tz_offset_from is None {
        Some("TZOFFSETFROM")
    } else {
        None
    }
}

impl TzPropParseBuilder {
    /// The properties collected.
    pub closed spec fn parts(&self) -> TzPropParseParts {
        TzPropParseParts {
            dtstart: self.dtstart,
            tz_offset_to: self.tz_offset_to,
            tz_offset_from: self.tz_offset_from,
            rrule: self.rrule,
            comment: self.comment@,
            rdate: self.rdate@,
            tzname: self.tzname@,
            xprop: self.xprop@,
            iana: self.iana@,
        }
    }

    /// Nothing collected yet.
    pub open spec fn empty_parts() -> TzPropParseParts {
        TzPropParseParts {
            dtstart: None,
            tz_offset_to: None,
            tz_offset_from: None,
            rrule: None,
            comment: Seq::empty(),
            rdate: Seq::empty(),
            tzname: Seq::empty(),
            xprop: Seq::empty(),
            iana: Seq::empty(),
        }
    }

    /// A component with nothing collected yet.
    pub fn new() -> (r: TzPropParseBuilder)
        ensures
            r.parts() == TzPropParseBuilder::empty_parts(),
    {
        TzPropParseBuilder {
            dtstart: None,
            tz_offset_to: None,
            tz_offset_from: None,
            rrule: None,
            comment: Vec::new(),
            rdate: Vec::new(),
            tzname: Vec::new(),
            xprop: Vec::new(),
            iana: Vec::new(),
        }
    }

    /// Reads one property into the component.
    pub fn ingest(&mut self, p: Property) -> (r: Result<(), PropertyError>)
        ensures
            match tzprop_ingest(old(self).parts(), p) {
                Ok(q) => r is Ok && final(self).parts() == q,
                Err(e) => r == Err::<(), PropertyError>(e) && final(self).parts() == old(self).parts(),
            },
    {
        reveal(tzprop_ingest);
        match p {
            Property::DateTimeStart(x) => {
                if self.dtstart.is_some() {
                    return Err(PropertyError::DuplicateProperty("DTSTART"));
                }
                self.dtstart = Some(x);
                Ok(())
            },
            Property::TimeZoneOffsetTo(x) => {
                if self.tz_offset_to.is_some() {
                    return Err(PropertyError::DuplicateProperty("TZOFFSETTO"));
                }
                self.tz_offset_to = Some(x);
                Ok(())
            },
            Property::TimeZoneOffsetFrom(x) => {
                if self.tz_offset_from.is_some() {
                    return Err(PropertyError::DuplicateProperty("TZOFFSETFROM"));
                }
                self.tz_offset_from = Some(x);
                Ok(())
            },
            Property::RRule(x) => {
                if self.rrule.is_some() {
                    return Err(PropertyError::DuplicateProperty("RRULE"));
                }
                self.rrule = Some(x);
                Ok(())
            },
            Property::Comment(x) => {
                self.comment.push(x);
                Ok(())
            },
            Property::RecurrenceDateTimes(x) => {
                self.rdate.push(x);
                Ok(())
            },
            Property::TimeZoneName(x) => {
                self.tzname.push(x);
                Ok(())
            },
            Property::Xprop(x) => {
                self.xprop.push(x);
                Ok(())
            },
            Property::Iana(x) => {
                self.iana.push(x);
                Ok(())
            },
            _ => Err(PropertyError::UnexpectedProperty),
        }
    }

    /// Builds the component: the properties it requires must be there,
    /// and then it is checked as its builder checks it.
    pub fn finish(self) -> (r: Result<TzProp, ComponentError>)
        ensures
            tzprop_missing(self.parts()) matches Some(n) ==> r == Err::<TzProp, ComponentError>(ComponentError::MissingField(n)),
            tzprop_missing(self.parts()) is None ==> (r is Ok <==> tzprop_check(tzprop_parts_of(self.parts())) is Ok),
            tzprop_missing(self.parts()) is None ==> (r matches Err(e) ==> tzprop_check(tzprop_parts_of(self.parts())) == Err::<(), ComponentError>(e)),
            r matches Ok(c) ==> c.parts() == tzprop_parts_of(self.parts()),
    {
        let TzPropParseBuilder { dtstart, tz_offset_to, tz_offset_from, rrule, comment, rdate, tzname, xprop, iana } = self;
        let dtstart = match dtstart {
            Some(x) => x,
            None => {
                return Err(ComponentError::MissingField("DTSTART"));
            },
        };
        let tz_offset_to = match tz_offset_to {
            Some(x) => x,
            None => {
                return Err(ComponentError::MissingField("TZOFFSETTO"));
            },
        };
        let tz_offset_from = match tz_offset_from {
            Some(x) => x,
            None => {
                return Err(ComponentError::MissingField("TZOFFSETFROM"));
            },
        };
        let b = TzPropBuilder {
            dtstart,
            tz_offset_to,
            tz_offset_from,
            rrule,
            comment,
            rdate,
            tzname,
            xprop,
            iana,
        };
        b.build()
    }
}

} // verus!
