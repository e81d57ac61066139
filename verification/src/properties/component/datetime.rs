//! Date and time component properties (RFC 5545 §3.8.2).

use vstd::prelude::*;
use vstd::string::StringSliceAdditionalSpecFns;
use crate::bytes::{append_str, eq_bytes, eq_str, first_unquoted, lemma_str_bytes_differ, param_pieces, param_segments, to_upper, vec_views, COLON};
use crate::params::{
    AlarmTriggerRelationship, Fbtype, RecurrenceIdentifierRange, TimeZoneIdentifier,
    ValueDataType,
};
use crate::properties::{
    keepable, kept, kept_step, last_value, lemma_kept_push, lemma_kept_unmodeled_fails, lemma_line_valid, lemma_step,
    modeled, named, param_name, param_value, seg_value, split_remainder, unmodeled,
    ParameterError, ParseError, SharedParams,
};
use crate::values::{
    lemma_list_valid, list_accepts, list_ical, list_parses, malformed_value, parse_list,
    write_list, Ical, Integer, Text, ValueError,
};
use crate::values::datetime::{date_or_datetime_resolved, DateOrDatetime, DateTime};
use crate::values::duration::{DateTimeDuration, DateTimePeriod, Duration as DurationValue, Period};
use vstd::utf8::valid_utf8;
use crate::components::ComponentError;
use crate::properties::component::recurrence::{ExceptionDateTimes, RRule, RecurrenceDateTimes};

verus! {

/// The parameters of `DTSTART`, `DTEND` and `DUE`.
#[derive(Debug)]
pub struct DateTimeParams {
    shared: SharedParams,
    value_data_type: Option<ValueDataType>,
    tz_identifier: Option<TimeZoneIdentifier>,
}

impl DateTimeParams {
    /// The names of the parameters modeled here.
    pub open spec fn keys() -> Seq<Seq<u8>> {
        seq!["VALUE".spec_bytes(), "TZID".spec_bytes()]
    }

    /// Whether the segments `ps` parse: every unmodeled one can be kept and
    /// every modeled one holds a value of its parameter.
    pub open spec fn parses(ps: Seq<Seq<u8>>) -> bool {
        &&& kept(unmodeled(ps, DateTimeParams::keys())) is Some
        &&& forall|i: int|
            0 <= i < ps.len() && named(#[trigger] ps[i], "VALUE".spec_bytes()) ==> ValueDataType::parses(
                seg_value(ps[i]),
            )
        &&& forall|i: int|
            0 <= i < ps.len() && named(#[trigger] ps[i], "TZID".spec_bytes()) ==> TimeZoneIdentifier::parses(
                seg_value(ps[i]),
            )
    }

    /// The unmodeled parameters.
    pub closed spec fn spec_shared(&self) -> SharedParams {
        self.shared
    }

    /// The `VALUE` parameter.
    pub closed spec fn spec_value_data_type(&self) -> Option<ValueDataType> {
        self.value_data_type
    }

    /// The `TZID` parameter.
    pub closed spec fn spec_tz_identifier(&self) -> Option<TimeZoneIdentifier> {
        self.tz_identifier
    }

    /// Whether these parameters are what the segments `ps` parse to: each
    /// modeled parameter from its last occurrence, the rest kept in order.
    pub open spec fn describes(&self, ps: Seq<Seq<u8>>) -> bool {
        &&& kept(unmodeled(ps, DateTimeParams::keys())) == Some(
            (self.spec_shared().iana_bytes(), self.spec_shared().xname_bytes()),
        )
        &&& match last_value(ps, "VALUE".spec_bytes()) {
            Some(v) => self.spec_value_data_type() matches Some(x) && ValueDataType::accepts(v, x),
            None => self.spec_value_data_type() is None,
        }
        &&& match last_value(ps, "TZID".spec_bytes()) {
            Some(v) => self.spec_tz_identifier() matches Some(x) && TimeZoneIdentifier::accepts(v, x),
            None => self.spec_tz_identifier() is None,
        }
    }

    /// No parameters.
    pub fn new() -> (r: DateTimeParams)
        ensures
            r.spec_shared().iana_bytes() == Seq::<Seq<u8>>::empty(),
            r.spec_shared().xname_bytes() == Seq::<Seq<u8>>::empty(),
            r.spec_value_data_type() is None,
            r.spec_tz_identifier() is None,
    {
        DateTimeParams { shared: SharedParams::new(), value_data_type: None, tz_identifier: None }
    }

    /// The names modeled here differ from one another.
    proof fn lemma_keys_distinct()
        ensures
            "VALUE".spec_bytes() != "TZID".spec_bytes(),
    {
        reveal_strlit("VALUE");
        reveal_strlit("TZID");
        lemma_str_bytes_differ("VALUE", "TZID", 0);
    }

    /// Whether one segment can be taken: a modeled one must hold a value of
    /// its parameter, any other must be keepable.
    pub open spec fn segment_ok(seg: Seq<u8>) -> bool {
        if named(seg, "VALUE".spec_bytes()) {
            ValueDataType::parses(seg_value(seg))
        } else if named(seg, "TZID".spec_bytes()) {
            TimeZoneIdentifier::parses(seg_value(seg))
        } else {
            keepable(seg)
        }
    }

    /// How taking the segment `seg` changes the parameters `p` into `q`.
    pub open spec fn segment_step(p: DateTimeParams, q: DateTimeParams, seg: Seq<u8>) -> bool {
        &&& if named(seg, "VALUE".spec_bytes()) {
            q.spec_value_data_type() matches Some(x) && ValueDataType::accepts(seg_value(seg), x)
        } else {
            q.spec_value_data_type() == p.spec_value_data_type()
        }
        &&& if named(seg, "TZID".spec_bytes()) {
            q.spec_tz_identifier() matches Some(x) && TimeZoneIdentifier::accepts(seg_value(seg), x)
        } else {
            q.spec_tz_identifier() == p.spec_tz_identifier()
        }
        &&& if modeled(seg, DateTimeParams::keys()) {
            q.spec_shared() == p.spec_shared()
        } else {
            kept_step(p.spec_shared().iana_bytes(), p.spec_shared().xname_bytes(), seg) == Some(
                (q.spec_shared().iana_bytes(), q.spec_shared().xname_bytes()),
            )
        }
    }

    /// Takes one `NAME=VALUE` segment.
    fn take_segment(&mut self, seg: &[u8]) -> (r: Result<(), ParameterError>)
        ensures
            r is Ok <==> DateTimeParams::segment_ok(seg@),
            r is Ok ==> DateTimeParams::segment_step(*old(self), *final(self), seg@),
    {
        proof {
            DateTimeParams::lemma_keys_distinct();
            assert(DateTimeParams::keys()[0] == "VALUE".spec_bytes());
            assert(DateTimeParams::keys()[1] == "TZID".spec_bytes());
        }
        let name = match param_name(seg) {
            Ok(n) => n,
            Err(e) => {
                return Err(e);
            },
        };
        let key = to_upper(name.as_slice());
        if eq_str(key.as_slice(), "VALUE") {
            let value = param_value(seg)?;
            match ValueDataType::try_from(value.as_slice()) {
                Ok(x) => {
                    self.value_data_type = Some(x);
                    Ok(())
                },
                Err(e) => Err(ParameterError::Param(e)),
            }
        } else if eq_str(key.as_slice(), "TZID") {
            let value = param_value(seg)?;
            match TimeZoneIdentifier::try_from(value.as_slice()) {
                Ok(x) => {
                    self.tz_identifier = Some(x);
                    Ok(())
                },
                Err(e) => Err(ParameterError::Param(e)),
            }
        } else {
            assert(!modeled(seg@, DateTimeParams::keys()));
            self.shared.absorb(seg)
        }
    }

    /// Parses a parameter list.
    pub fn parse(v: &[u8]) -> (r: Result<DateTimeParams, ParameterError>)
        ensures
            r is Ok <==> DateTimeParams::parses(param_pieces(v@)),
            r matches Ok(p) ==> p.describes(param_pieces(v@)),
    {
        let segs = param_segments(v);
        let ghost ps = vec_views(segs@);
        let ghost keys = DateTimeParams::keys();
        let mut p = DateTimeParams::new();
        let mut i: usize = 0;
        assert(ps.take(0) =~= Seq::<Seq<u8>>::empty());
        while i < segs.len()
            invariant
                i <= segs.len(),
                ps == vec_views(segs@),
                ps == param_pieces(v@),
                keys == DateTimeParams::keys(),
                kept(unmodeled(ps.take(i as int), keys)) == Some(
                    (p.spec_shared().iana_bytes(), p.spec_shared().xname_bytes()),
                ),
                forall|j: int|
                    0 <= j < i && named(#[trigger] ps[j], "VALUE".spec_bytes()) ==> ValueDataType::parses(
                        seg_value(ps[j]),
                    ),
                match last_value(ps.take(i as int), "VALUE".spec_bytes()) {
                    Some(w) => p.spec_value_data_type() matches Some(x) && ValueDataType::accepts(w, x),
                    None => p.spec_value_data_type() is None,
                },
                forall|j: int|
                    0 <= j < i && named(#[trigger] ps[j], "TZID".spec_bytes()) ==> TimeZoneIdentifier::parses(
                        seg_value(ps[j]),
                    ),
                match last_value(ps.take(i as int), "TZID".spec_bytes()) {
                    Some(w) => p.spec_tz_identifier() matches Some(x) && TimeZoneIdentifier::accepts(w, x),
                    None => p.spec_tz_identifier() is None,
                },
            decreases segs.len() - i,
        {
            let seg = segs[i].as_slice();
            proof {
                lemma_step(ps, keys, i as int);
                assert(seg@ == ps[i as int]);
                DateTimeParams::lemma_keys_distinct();
                assert(keys[0] == "VALUE".spec_bytes());
                assert(keys[1] == "TZID".spec_bytes());
                lemma_kept_push(unmodeled(ps.take(i as int), keys), ps[i as int]);
            }
            match p.take_segment(seg) {
                Ok(()) => {},
                Err(e) => {
                    proof {
                        if !modeled(ps[i as int], keys) {
                            lemma_kept_unmodeled_fails(ps, keys, i + 1, ps.len() as int);
                        }
                        assert(ps.take(ps.len() as int) =~= ps);
                    }
                    return Err(e);
                },
            }
            i += 1;
        }
        assert(ps.take(segs.len() as int) =~= ps);
        Ok(p)
    }

    /// The unmodeled parameters.
    pub fn shared(&self) -> (r: &SharedParams)
        ensures
            *r == self.spec_shared(),
    {
        &self.shared
    }

    /// The `VALUE` parameter.
    pub fn value_data_type(&self) -> (r: Option<&ValueDataType>)
        ensures
            match r {
                Some(x) => self.spec_value_data_type() == Some(*x),
                None => self.spec_value_data_type() is None,
            },
    {
        self.value_data_type.as_ref()
    }

    /// Sets the `VALUE` parameter.
    pub fn set_value_data_type(&mut self, x: ValueDataType)
        ensures
            final(self).spec_value_data_type() == Some(x),
            final(self).spec_shared() == old(self).spec_shared(),
            final(self).spec_tz_identifier() == old(self).spec_tz_identifier(),
    {
        self.value_data_type = Some(x);
    }

    /// The `TZID` parameter.
    pub fn tz_identifier(&self) -> (r: Option<&TimeZoneIdentifier>)
        ensures
            match r {
                Some(x) => self.spec_tz_identifier() == Some(*x),
                None => self.spec_tz_identifier() is None,
            },
    {
        self.tz_identifier.as_ref()
    }

    /// Sets the `TZID` parameter.
    pub fn set_tz_identifier(&mut self, x: TimeZoneIdentifier)
        ensures
            final(self).spec_tz_identifier() == Some(x),
            final(self).spec_shared() == old(self).spec_shared(),
            final(self).spec_value_data_type() == old(self).spec_value_data_type(),
    {
        self.tz_identifier = Some(x);
    }

    /// How the parameters are written: each modeled one that is set, then
    /// the kept ones.
    pub open spec fn ical(&self) -> Seq<u8> {
        self.value_data_type_text() + self.tz_identifier_text() + self.spec_shared().ical()
    }

    /// The written parameters are valid UTF-8.
    pub proof fn lemma_ical_valid(&self)
        ensures
            valid_utf8(self.ical()),
    {
        self.spec_shared().lemma_ical_valid();
        let mut acc: Seq<u8> = seq![];
        assert(valid_utf8(acc));
        let part = self.value_data_type_text();
        if let Some(x) = self.spec_value_data_type() {
            x.lemma_ical_valid();
            vstd::utf8::encode_utf8_valid_utf8(";VALUE="@);
            vstd::utf8::valid_utf8_concat(";VALUE=".spec_bytes(), x.ical());
        }
        vstd::utf8::valid_utf8_concat(acc, part);
        acc = acc + part;
        let part = self.tz_identifier_text();
        if let Some(x) = self.spec_tz_identifier() {
            x.lemma_ical_valid();
            vstd::utf8::encode_utf8_valid_utf8(";TZID="@);
            vstd::utf8::valid_utf8_concat(";TZID=".spec_bytes(), x.ical());
        }
        vstd::utf8::valid_utf8_concat(acc, part);
        acc = acc + part;
        vstd::utf8::valid_utf8_concat(acc, self.spec_shared().ical());
        assert(acc + self.spec_shared().ical() =~= self.ical());
    }

    /// The `VALUE` parameter as written, when it is set.
    pub open spec fn value_data_type_text(&self) -> Seq<u8> {
        match self.spec_value_data_type() {
            Some(x) => ";VALUE=".spec_bytes() + x.ical(),
            None => seq![],
        }
    }

    fn write_value_data_type(&self, out: &mut Vec<u8>)
        ensures
            final(out)@ == old(out)@ + self.value_data_type_text(),
    {
        if let Some(x) = &self.value_data_type {
            append_str(out, ";VALUE=");
            x.write_to(out);
        }
    }

    /// The `TZID` parameter as written, when it is set.
    pub open spec fn tz_identifier_text(&self) -> Seq<u8> {
        match self.spec_tz_identifier() {
            Some(x) => ";TZID=".spec_bytes() + x.ical(),
            None => seq![],
        }
    }

    fn write_tz_identifier(&self, out: &mut Vec<u8>)
        ensures
            final(out)@ == old(out)@ + self.tz_identifier_text(),
    {
        if let Some(x) = &self.tz_identifier {
            append_str(out, ";TZID=");
            x.write_to(out);
        }
    }

    /// Appends the parameters as written.
    pub fn write_to(&self, out: &mut Vec<u8>)
        ensures
            final(out)@ == old(out)@ + self.ical(),
    {
        self.write_value_data_type(out);
        self.write_tz_identifier(out);
        self.shared.write_to(out);
        assert(out@ =~= old(out)@ + self.ical());
    }
}
/// When a to-do was completed (RFC 5545 §3.8.2.1).
#[derive(Debug)]
pub struct Completed {
    value: DateTime,
    params: SharedParams,
}

impl Completed {
    /// The property's value.
    pub closed spec fn spec_value(&self) -> DateTime {
        self.value
    }

    /// The property's parameters.
    pub closed spec fn spec_params(&self) -> SharedParams {
        self.params
    }

    /// Whether the rest of a content line, after the name, parses.
    pub open spec fn parses(v: Seq<u8>) -> bool {
        match first_unquoted(v, COLON) {
            Some(k) => SharedParams::parses(param_pieces(v.take(k))) && DateTime::parses(v.skip(k + 1)),
            None => false,
        }
    }

    /// Whether this property is what the rest of a content line parses to.
    pub open spec fn describes(&self, v: Seq<u8>) -> bool {
        match first_unquoted(v, COLON) {
            Some(k) => self.spec_params().describes(param_pieces(v.take(k))) && DateTime::accepts(v.skip(k + 1), self.spec_value()),
            None => false,
        }
    }

    /// Parses the rest of a content line, after the name: the parameters,
    /// `:`, the value.
    pub fn try_from(v: &[u8]) -> (r: Result<Completed, ParseError>)
        ensures
            r is Ok <==> Completed::parses(v@),
            r matches Ok(p) ==> p.describes(v@),
            first_unquoted(v@, COLON) is None ==> r matches Err(ParseError::Parameter { .. }),
    {
        let (head, tail) = split_remainder(v)?;
        let params = match SharedParams::parse(head.as_slice()) {
            Ok(p) => p,
            Err(e) => {
                return Err(ParseError::Parameters(e));
            },
        };
        let value = match DateTime::try_from(tail.as_slice()) {
            Ok(x) => x,
            Err(e) => {
                return Err(ParseError::Value(e));
            },
        };
        Ok(Completed { value, params })
    }

    /// The property with no parameters.
    pub fn new(value: DateTime) -> (r: Completed)
        ensures
            r.spec_value() == value,
            r.spec_params().iana_bytes() == Seq::<Seq<u8>>::empty(),
            r.spec_params().xname_bytes() == Seq::<Seq<u8>>::empty(),
    {
        Completed { value, params: SharedParams::new() }
    }

    /// The property's value.
    pub fn value(&self) -> (r: &DateTime)
        ensures
            *r == self.spec_value(),
    {
        &self.value
    }

    /// The property's parameters.
    pub fn params(&self) -> (r: &SharedParams)
        ensures
            *r == self.spec_params(),
    {
        &self.params
    }
}

impl Ical for Completed {
    /// The content line: `COMPLETED`, the parameters, `:`, the value.
    open spec fn ical(&self) -> Seq<u8> {
        "COMPLETED".spec_bytes() + self.spec_params().ical() + seq![COLON] + self.spec_value().ical()
    }

    proof fn lemma_ical_valid(&self) {
        self.spec_params().lemma_ical_valid();
        self.spec_value().lemma_ical_valid();
        lemma_line_valid("COMPLETED", self.spec_params().ical(), self.spec_value().ical());
    }

    fn write_to(&self, out: &mut Vec<u8>) {
        append_str(out, "COMPLETED");
        self.params.write_to(out);
        out.push(COLON);
        self.value.write_to(out);
        assert(out@ =~= old(out)@ + self.ical());
    }
}
/// When a component ends (RFC 5545 §3.8.2.2).
#[derive(Debug)]
pub struct DateTimeEnd {
    value: DateOrDatetime,
    params: DateTimeParams,
}

impl DateTimeEnd {
    /// The property's value.
    pub closed spec fn spec_value(&self) -> DateOrDatetime {
        self.value
    }

    /// The property's parameters.
    pub closed spec fn spec_params(&self) -> DateTimeParams {
        self.params
    }

    /// The zone the `TZID` parameter names, if there is one.
    pub open spec fn zone(&self) -> Option<Seq<char>> {
        match self.spec_params().spec_tz_identifier() {
            Some(t) => Some(t@),
            None => None,
        }
    }

    /// Whether the rest of a content line, after the name, parses.
    pub open spec fn parses(v: Seq<u8>) -> bool {
        match first_unquoted(v, COLON) {
            Some(k) => DateTimeParams::parses(param_pieces(v.take(k))) && DateOrDatetime::parses(v.skip(k + 1)),
            None => false,
        }
    }

    /// Whether this property is what the rest of a content line parses to:
    /// its value is the one written, read in the zone `TZID` names.
    pub open spec fn describes(&self, v: Seq<u8>) -> bool {
        match first_unquoted(v, COLON) {
            Some(k) => self.spec_params().describes(param_pieces(v.take(k))) && exists|x: DateOrDatetime|
                DateOrDatetime::accepts(v.skip(k + 1), x) && self.spec_value() == date_or_datetime_resolved(x, self.zone()),
            None => false,
        }
    }

    /// Parses the rest of a content line, after the name, and reads a
    /// floating date-time in the zone `TZID` names.
    pub fn try_from(v: &[u8]) -> (r: Result<DateTimeEnd, ParseError>)
        ensures
            r is Ok <==> DateTimeEnd::parses(v@),
            r matches Ok(p) ==> p.describes(v@),
            first_unquoted(v@, COLON) is None ==> r matches Err(ParseError::Parameter { .. }),
    {
        let (head, tail) = split_remainder(v)?;
        let params = match DateTimeParams::parse(head.as_slice()) {
            Ok(p) => p,
            Err(e) => {
                return Err(ParseError::Parameters(e));
            },
        };
        let parsed = match DateOrDatetime::try_from(tail.as_slice()) {
            Ok(x) => x,
            Err(e) => {
                return Err(ParseError::Value(e));
            },
        };
        let value = match params.tz_identifier() {
            Some(t) => parsed.resolve_tz(Some(t.as_str())),
            None => parsed.resolve_tz(None),
        };
        let r = DateTimeEnd { value, params };
        assert(DateOrDatetime::accepts(tail@, parsed) && r.spec_value() == date_or_datetime_resolved(parsed, r.zone()));
        Ok(r)
    }

    /// The property's value.
    pub fn value(&self) -> (r: &DateOrDatetime)
        ensures
            *r == self.spec_value(),
    {
        &self.value
    }

    /// The property's parameters.
    pub fn params(&self) -> (r: &DateTimeParams)
        ensures
            *r == self.spec_params(),
    {
        &self.params
    }
}

impl Ical for DateTimeEnd {
    /// The content line: `DTEND`, the parameters, `:`, the value.
    open spec fn ical(&self) -> Seq<u8> {
        "DTEND".spec_bytes() + self.spec_params().ical() + seq![COLON] + self.spec_value().ical()
    }

    proof fn lemma_ical_valid(&self) {
        self.spec_params().lemma_ical_valid();
        self.spec_value().lemma_ical_valid();
        lemma_line_valid("DTEND", self.spec_params().ical(), self.spec_value().ical());
    }

    fn write_to(&self, out: &mut Vec<u8>) {
        append_str(out, "DTEND");
        self.params.write_to(out);
        out.push(COLON);
        self.value.write_to(out);
        assert(out@ =~= old(out)@ + self.ical());
    }
}

/// Builds a [`DateTimeEnd`].
#[derive(Debug)]
pub struct DateTimeEndBuilder {
    value: DateOrDatetime,
    tzid: Option<TimeZoneIdentifier>,
}

impl DateTimeEndBuilder {
    /// The value being built.
    pub closed spec fn spec_value(&self) -> DateOrDatetime {
        self.value
    }

    /// The `TZID` set so far.
    pub closed spec fn spec_tzid(&self) -> Option<TimeZoneIdentifier> {
        self.tzid
    }

    /// A builder for `value`, with no parameters.
    pub fn new(value: DateOrDatetime) -> (r: DateTimeEndBuilder)
        ensures
            r.spec_value() == value,
            r.spec_tzid() is None,
    {
        DateTimeEndBuilder { value, tzid: None }
    }

    /// Sets `TZID`: a floating date-time is read in that zone.
    pub fn tzid(self, tzid: TimeZoneIdentifier) -> (r: DateTimeEndBuilder)
        ensures
            r.spec_value() == self.spec_value(),
            r.spec_tzid() == Some(tzid),
    {
        let mut b = self;
        b.tzid = Some(tzid);
        b
    }

    /// The property: the value read in the `TZID` zone, and `VALUE=DATE`
    /// for a date.
    pub fn build(self) -> (r: DateTimeEnd)
        ensures
            r.spec_value() == date_or_datetime_resolved(self.spec_value(), match self.spec_tzid() {
                Some(t) => Some(t@),
                None => None,
            }),
            r.spec_params().spec_tz_identifier() == self.spec_tzid(),
            r.spec_params().spec_value_data_type() == if self.spec_value() is Date {
                Some(ValueDataType::Date)
            } else {
                None
            },
            r.spec_params().spec_shared().iana_bytes() == Seq::<Seq<u8>>::empty(),
            r.spec_params().spec_shared().xname_bytes() == Seq::<Seq<u8>>::empty(),
    {
        let value = match &self.tzid {
            Some(t) => self.value.resolve_tz(Some(t.as_str())),
            None => self.value.resolve_tz(None),
        };
        let mut params = DateTimeParams::new();
        if let DateOrDatetime::Date(_) = value {
            params.set_value_data_type(ValueDataType::Date);
        }
        if let Some(t) = self.tzid {
            params.set_tz_identifier(t);
        }
        DateTimeEnd { value, params }
    }
}

/// When a to-do is due (RFC 5545 §3.8.2.3).
#[derive(Debug)]
pub struct DateTimeDue {
    value: DateOrDatetime,
    params: DateTimeParams,
}

impl DateTimeDue {
    /// The property's value.
    pub closed spec fn spec_value(&self) -> DateOrDatetime {
        self.value
    }

    /// The property's parameters.
    pub closed spec fn spec_params(&self) -> DateTimeParams {
        self.params
    }

    /// The zone the `TZID` parameter names, if there is one.
    pub open spec fn zone(&self) -> Option<Seq<char>> {
        match self.spec_params().spec_tz_identifier() {
            Some(t) => Some(t@),
            None => None,
        }
    }

    /// Whether the rest of a content line, after the name, parses.
    pub open spec fn parses(v: Seq<u8>) -> bool {
        match first_unquoted(v, COLON) {
            Some(k) => DateTimeParams::parses(param_pieces(v.take(k))) && DateOrDatetime::parses(v.skip(k + 1)),
            None => false,
        }
    }

    /// Whether this property is what the rest of a content line parses to:
    /// its value is the one written, read in the zone `TZID` names.
    pub open spec fn describes(&self, v: Seq<u8>) -> bool {
        match first_unquoted(v, COLON) {
            Some(k) => self.spec_params().describes(param_pieces(v.take(k))) && exists|x: DateOrDatetime|
                DateOrDatetime::accepts(v.skip(k + 1), x) && self.spec_value() == date_or_datetime_resolved(x, self.zone()),
            None => false,
        }
    }

    /// Parses the rest of a content line, after the name, and reads a
    /// floating date-time in the zone `TZID` names.
    pub fn try_from(v: &[u8]) -> (r: Result<DateTimeDue, ParseError>)
        ensures
            r is Ok <==> DateTimeDue::parses(v@),
            r matches Ok(p) ==> p.describes(v@),
            first_unquoted(v@, COLON) is None ==> r matches Err(ParseError::Parameter { .. }),
    {
        let (head, tail) = split_remainder(v)?;
        let params = match DateTimeParams::parse(head.as_slice()) {
            Ok(p) => p,
            Err(e) => {
                return Err(ParseError::Parameters(e));
            },
        };
        let parsed = match DateOrDatetime::try_from(tail.as_slice()) {
            Ok(x) => x,
            Err(e) => {
                return Err(ParseError::Value(e));
            },
        };
        let value = match params.tz_identifier() {
            Some(t) => parsed.resolve_tz(Some(t.as_str())),
            None => parsed.resolve_tz(None),
        };
        let r = DateTimeDue { value, params };
        assert(DateOrDatetime::accepts(tail@, parsed) && r.spec_value() == date_or_datetime_resolved(parsed, r.zone()));
        Ok(r)
    }

    /// The property's value.
    pub fn value(&self) -> (r: &DateOrDatetime)
        ensures
            *r == self.spec_value(),
    {
        &self.value
    }

    /// The property's parameters.
    pub fn params(&self) -> (r: &DateTimeParams)
        ensures
            *r == self.spec_params(),
    {
        &self.params
    }
}

impl Ical for DateTimeDue {
    /// The content line: `DUE`, the parameters, `:`, the value.
    open spec fn ical(&self) -> Seq<u8> {
        "DUE".spec_bytes() + self.spec_params().ical() + seq![COLON] + self.spec_value().ical()
    }

    proof fn lemma_ical_valid(&self) {
        self.spec_params().lemma_ical_valid();
        self.spec_value().lemma_ical_valid();
        lemma_line_valid("DUE", self.spec_params().ical(), self.spec_value().ical());
    }

    fn write_to(&self, out: &mut Vec<u8>) {
        append_str(out, "DUE");
        self.params.write_to(out);
        out.push(COLON);
        self.value.write_to(out);
        assert(out@ =~= old(out)@ + self.ical());
    }
}

/// Builds a [`DateTimeDue`].
#[derive(Debug)]
pub struct DateTimeDueBuilder {
    value: DateOrDatetime,
    tzid: Option<TimeZoneIdentifier>,
}

impl DateTimeDueBuilder {
    /// The value being built.
    pub closed spec fn spec_value(&self) -> DateOrDatetime {
        self.value
    }

    /// The `TZID` set so far.
    pub closed spec fn spec_tzid(&self) -> Option<TimeZoneIdentifier> {
        self.tzid
    }

    /// A builder for `value`, with no parameters.
    pub fn new(value: DateOrDatetime) -> (r: DateTimeDueBuilder)
        ensures
            r.spec_value() == value,
            r.spec_tzid() is None,
    {
        DateTimeDueBuilder { value, tzid: None }
    }

    /// Sets `TZID`: a floating date-time is read in that zone.
    pub fn tzid(self, tzid: TimeZoneIdentifier) -> (r: DateTimeDueBuilder)
        ensures
            r.spec_value() == self.spec_value(),
            r.spec_tzid() == Some(tzid),
    {
        let mut b = self;
        b.tzid = Some(tzid);
        b
    }

    /// The property: the value read in the `TZID` zone, and `VALUE=DATE`
    /// for a date.
    pub fn build(self) -> (r: DateTimeDue)
        ensures
            r.spec_value() == date_or_datetime_resolved(self.spec_value(), match self.spec_tzid() {
                Some(t) => Some(t@),
                None => None,
            }),
            r.spec_params().spec_tz_identifier() == self.spec_tzid(),
            r.spec_params().spec_value_data_type() == if self.spec_value() is Date {
                Some(ValueDataType::Date)
            } else {
                None
            },
            r.spec_params().spec_shared().iana_bytes() == Seq::<Seq<u8>>::empty(),
            r.spec_params().spec_shared().xname_bytes() == Seq::<Seq<u8>>::empty(),
    {
        let value = match &self.tzid {
            Some(t) => self.value.resolve_tz(Some(t.as_str())),
            None => self.value.resolve_tz(None),
        };
        let mut params = DateTimeParams::new();
        if let DateOrDatetime::Date(_) = value {
            params.set_value_data_type(ValueDataType::Date);
        }
        if let Some(t) = self.tzid {
            params.set_tz_identifier(t);
        }
        DateTimeDue { value, params }
    }
}

/// When a component starts (RFC 5545 §3.8.2.4).
#[derive(Debug)]
pub struct DateTimeStart {
    value: DateOrDatetime,
    params: DateTimeParams,
}

impl DateTimeStart {
    /// The property's value.
    pub closed spec fn spec_value(&self) -> DateOrDatetime {
        self.value
    }

    /// The property's parameters.
    pub closed spec fn spec_params(&self) -> DateTimeParams {
        self.params
    }

    /// The zone the `TZID` parameter names, if there is one.
    pub open spec fn zone(&self) -> Option<Seq<char>> {
        match self.spec_params().spec_tz_identifier() {
            Some(t) => Some(t@),
            None => None,
        }
    }

    /// Whether the rest of a content line, after the name, parses.
    pub open spec fn parses(v: Seq<u8>) -> bool {
        match first_unquoted(v, COLON) {
            Some(k) => DateTimeParams::parses(param_pieces(v.take(k))) && DateOrDatetime::parses(v.skip(k + 1)),
            None => false,
        }
    }

    /// Whether this property is what the rest of a content line parses to:
    /// its value is the one written, read in the zone `TZID` names.
    pub open spec fn describes(&self, v: Seq<u8>) -> bool {
        match first_unquoted(v, COLON) {
            Some(k) => self.spec_params().describes(param_pieces(v.take(k))) && exists|x: DateOrDatetime|
                DateOrDatetime::accepts(v.skip(k + 1), x) && self.spec_value() == date_or_datetime_resolved(x, self.zone()),
            None => false,
        }
    }

    /// Parses the rest of a content line, after the name, and reads a
    /// floating date-time in the zone `TZID` names.
    pub fn try_from(v: &[u8]) -> (r: Result<DateTimeStart, ParseError>)
        ensures
            r is Ok <==> DateTimeStart::parses(v@),
            r matches Ok(p) ==> p.describes(v@),
            first_unquoted(v@, COLON) is None ==> r matches Err(ParseError::Parameter { .. }),
    {
        let (head, tail) = split_remainder(v)?;
        let params = match DateTimeParams::parse(head.as_slice()) {
            Ok(p) => p,
            Err(e) => {
                return Err(ParseError::Parameters(e));
            },
        };
        let parsed = match DateOrDatetime::try_from(tail.as_slice()) {
            Ok(x) => x,
            Err(e) => {
                return Err(ParseError::Value(e));
            },
        };
        let value = match params.tz_identifier() {
            Some(t) => parsed.resolve_tz(Some(t.as_str())),
            None => parsed.resolve_tz(None),
        };
        let r = DateTimeStart { value, params };
        assert(DateOrDatetime::accepts(tail@, parsed) && r.spec_value() == date_or_datetime_resolved(parsed, r.zone()));
        Ok(r)
    }

    /// The property's value.
    pub fn value(&self) -> (r: &DateOrDatetime)
        ensures
            *r == self.spec_value(),
    {
        &self.value
    }

    /// The property's parameters.
    pub fn params(&self) -> (r: &DateTimeParams)
        ensures
            *r == self.spec_params(),
    {
        &self.params
    }
}

impl Ical for DateTimeStart {
    /// The content line: `DTSTART`, the parameters, `:`, the value.
    open spec fn ical(&self) -> Seq<u8> {
        "DTSTART".spec_bytes() + self.spec_params().ical() + seq![COLON] + self.spec_value().ical()
    }

    proof fn lemma_ical_valid(&self) {
        self.spec_params().lemma_ical_valid();
        self.spec_value().lemma_ical_valid();
        lemma_line_valid("DTSTART", self.spec_params().ical(), self.spec_value().ical());
    }

    fn write_to(&self, out: &mut Vec<u8>) {
        append_str(out, "DTSTART");
        self.params.write_to(out);
        out.push(COLON);
        self.value.write_to(out);
        assert(out@ =~= old(out)@ + self.ical());
    }
}

/// Builds a [`DateTimeStart`].
#[derive(Debug)]
pub struct DateTimeStartBuilder {
    value: DateOrDatetime,
    tzid: Option<TimeZoneIdentifier>,
}

impl DateTimeStartBuilder {
    /// The value being built.
    pub closed spec fn spec_value(&self) -> DateOrDatetime {
        self.value
    }

    /// The `TZID` set so far.
    pub closed spec fn spec_tzid(&self) -> Option<TimeZoneIdentifier> {
        self.tzid
    }

    /// A builder for `value`, with no parameters.
    pub fn new(value: DateOrDatetime) -> (r: DateTimeStartBuilder)
        ensures
            r.spec_value() == value,
            r.spec_tzid() is None,
    {
        DateTimeStartBuilder { value, tzid: None }
    }

    /// Sets `TZID`: a floating date-time is read in that zone.
    pub fn tzid(self, tzid: TimeZoneIdentifier) -> (r: DateTimeStartBuilder)
        ensures
            r.spec_value() == self.spec_value(),
            r.spec_tzid() == Some(tzid),
    {
        let mut b = self;
        b.tzid = Some(tzid);
        b
    }

    /// The property: the value read in the `TZID` zone, and `VALUE=DATE`
    /// for a date.
    pub fn build(self) -> (r: DateTimeStart)
        ensures
            r.spec_value() == date_or_datetime_resolved(self.spec_value(), match self.spec_tzid() {
                Some(t) => Some(t@),
                None => None,
            }),
            r.spec_params().spec_tz_identifier() == self.spec_tzid(),
            r.spec_params().spec_value_data_type() == if self.spec_value() is Date {
                Some(ValueDataType::Date)
            } else {
                None
            },
            r.spec_params().spec_shared().iana_bytes() == Seq::<Seq<u8>>::empty(),
            r.spec_params().spec_shared().xname_bytes() == Seq::<Seq<u8>>::empty(),
    {
        let value = match &self.tzid {
            Some(t) => self.value.resolve_tz(Some(t.as_str())),
            None => self.value.resolve_tz(None),
        };
        let mut params = DateTimeParams::new();
        if let DateOrDatetime::Date(_) = value {
            params.set_value_data_type(ValueDataType::Date);
        }
        if let Some(t) = self.tzid {
            params.set_tz_identifier(t);
        }
        DateTimeStart { value, params }
    }
}

/// The length of a component (RFC 5545 §3.8.2.5).
#[derive(Debug)]
pub struct Duration {
    value: DurationValue,
    params: SharedParams,
}

impl Duration {
    /// The property's value.
    pub closed spec fn spec_value(&self) -> DurationValue {
        self.value
    }

    /// The property's parameters.
    pub closed spec fn spec_params(&self) -> SharedParams {
        self.params
    }

    /// Whether the rest of a content line, after the name, parses.
    pub open spec fn parses(v: Seq<u8>) -> bool {
        match first_unquoted(v, COLON) {
            Some(k) => SharedParams::parses(param_pieces(v.take(k))) && DurationValue::parses(v.skip(k + 1)),
            None => false,
        }
    }

    /// Whether this property is what the rest of a content line parses to.
    pub open spec fn describes(&self, v: Seq<u8>) -> bool {
        match first_unquoted(v, COLON) {
            Some(k) => self.spec_params().describes(param_pieces(v.take(k))) && DurationValue::accepts(v.skip(k + 1), self.spec_value()),
            None => false,
        }
    }

    /// Parses the rest of a content line, after the name: the parameters,
    /// `:`, the value.
    pub fn try_from(v: &[u8]) -> (r: Result<Duration, ParseError>)
        ensures
            r is Ok <==> Duration::parses(v@),
            r matches Ok(p) ==> p.describes(v@),
            first_unquoted(v@, COLON) is None ==> r matches Err(ParseError::Parameter { .. }),
    {
        let (head, tail) = split_remainder(v)?;
        let params = match SharedParams::parse(head.as_slice()) {
            Ok(p) => p,
            Err(e) => {
                return Err(ParseError::Parameters(e));
            },
        };
        let value = match DurationValue::try_from(tail.as_slice()) {
            Ok(x) => x,
            Err(e) => {
                return Err(ParseError::Value(e));
            },
        };
        Ok(Duration { value, params })
    }

    /// The property with no parameters.
    pub fn new(value: DurationValue) -> (r: Duration)
        ensures
            r.spec_value() == value,
            r.spec_params().iana_bytes() == Seq::<Seq<u8>>::empty(),
            r.spec_params().xname_bytes() == Seq::<Seq<u8>>::empty(),
    {
        Duration { value, params: SharedParams::new() }
    }

    /// The property's value.
    pub fn value(&self) -> (r: &DurationValue)
        ensures
            *r == self.spec_value(),
    {
        &self.value
    }

    /// The property's parameters.
    pub fn params(&self) -> (r: &SharedParams)
        ensures
            *r == self.spec_params(),
    {
        &self.params
    }
}

impl Ical for Duration {
    /// The content line: `DURATION`, the parameters, `:`, the value.
    open spec fn ical(&self) -> Seq<u8> {
        "DURATION".spec_bytes() + self.spec_params().ical() + seq![COLON] + self.spec_value().ical()
    }

    proof fn lemma_ical_valid(&self) {
        self.spec_params().lemma_ical_valid();
        self.spec_value().lemma_ical_valid();
        lemma_line_valid("DURATION", self.spec_params().ical(), self.spec_value().ical());
    }

    fn write_to(&self, out: &mut Vec<u8>) {
        append_str(out, "DURATION");
        self.params.write_to(out);
        out.push(COLON);
        self.value.write_to(out);
        assert(out@ =~= old(out)@ + self.ical());
    }
}
/// The parameters of a `FREEBUSY` property; `FBTYPE` is written even
/// when absent, as `BUSY`, its default.
#[derive(Debug)]
pub struct FreeBusyTimeParams {
    shared: SharedParams,
    fb_time_type: Option<Fbtype>,
}

impl FreeBusyTimeParams {
    /// The names of the parameters modeled here.
    pub open spec fn keys() -> Seq<Seq<u8>> {
        seq!["FBTYPE".spec_bytes()]
    }

    /// Whether the segments `ps` parse: every unmodeled one can be kept and
    /// every modeled one holds a value of its parameter.
    pub open spec fn parses(ps: Seq<Seq<u8>>) -> bool {
        &&& kept(unmodeled(ps, FreeBusyTimeParams::keys())) is Some
        &&& forall|i: int|
            0 <= i < ps.len() && named(#[trigger] ps[i], "FBTYPE".spec_bytes()) ==> Fbtype::parses(
                seg_value(ps[i]),
            )
    }

    /// The unmodeled parameters.
    pub closed spec fn spec_shared(&self) -> SharedParams {
        self.shared
    }

    /// The `FBTYPE` parameter.
    pub closed spec fn spec_fb_time_type(&self) -> Option<Fbtype> {
        self.fb_time_type
    }

    /// Whether these parameters are what the segments `ps` parse to: each
    /// modeled parameter from its last occurrence, the rest kept in order.
    pub open spec fn describes(&self, ps: Seq<Seq<u8>>) -> bool {
        &&& kept(unmodeled(ps, FreeBusyTimeParams::keys())) == Some(
            (self.spec_shared().iana_bytes(), self.spec_shared().xname_bytes()),
        )
        &&& match last_value(ps, "FBTYPE".spec_bytes()) {
            Some(v) => self.spec_fb_time_type() matches Some(x) && Fbtype::accepts(v, x),
            None => self.spec_fb_time_type() is None,
        }
    }

    /// No parameters.
    pub fn new() -> (r: FreeBusyTimeParams)
        ensures
            r.spec_shared().iana_bytes() == Seq::<Seq<u8>>::empty(),
            r.spec_shared().xname_bytes() == Seq::<Seq<u8>>::empty(),
            r.spec_fb_time_type() is None,
    {
        FreeBusyTimeParams { shared: SharedParams::new(), fb_time_type: None }
    }

    /// The names modeled here differ from one another.
    proof fn lemma_keys_distinct()
        ensures
    {
        reveal_strlit("FBTYPE");
    }

    /// Whether one segment can be taken: a modeled one must hold a value of
    /// its parameter, any other must be keepable.
    pub open spec fn segment_ok(seg: Seq<u8>) -> bool {
        if named(seg, "FBTYPE".spec_bytes()) {
            Fbtype::parses(seg_value(seg))
        } else {
            keepable(seg)
        }
    }

    /// How taking the segment `seg` changes the parameters `p` into `q`.
    pub open spec fn segment_step(p: FreeBusyTimeParams, q: FreeBusyTimeParams, seg: Seq<u8>) -> bool {
        &&& if named(seg, "FBTYPE".spec_bytes()) {
            q.spec_fb_time_type() matches Some(x) && Fbtype::accepts(seg_value(seg), x)
        } else {
            q.spec_fb_time_type() == p.spec_fb_time_type()
        }
        &&& if modeled(seg, FreeBusyTimeParams::keys()) {
            q.spec_shared() == p.spec_shared()
        } else {
            kept_step(p.spec_shared().iana_bytes(), p.spec_shared().xname_bytes(), seg) == Some(
                (q.spec_shared().iana_bytes(), q.spec_shared().xname_bytes()),
            )
        }
    }

    /// Takes one `NAME=VALUE` segment.
    fn take_segment(&mut self, seg: &[u8]) -> (r: Result<(), ParameterError>)
        ensures
            r is Ok <==> FreeBusyTimeParams::segment_ok(seg@),
            r is Ok ==> FreeBusyTimeParams::segment_step(*old(self), *final(self), seg@),
    {
        proof {
            FreeBusyTimeParams::lemma_keys_distinct();
            assert(FreeBusyTimeParams::keys()[0] == "FBTYPE".spec_bytes());
        }
        let name = match param_name(seg) {
            Ok(n) => n,
            Err(e) => {
                return Err(e);
            },
        };
        let key = to_upper(name.as_slice());
        if eq_str(key.as_slice(), "FBTYPE") {
            let value = param_value(seg)?;
            match Fbtype::try_from(value.as_slice()) {
                Ok(x) => {
                    self.fb_time_type = Some(x);
                    Ok(())
                },
                Err(e) => Err(ParameterError::Param(e)),
            }
        } else {
            assert(!modeled(seg@, FreeBusyTimeParams::keys()));
            self.shared.absorb(seg)
        }
    }

    /// Parses a parameter list.
    pub fn parse(v: &[u8]) -> (r: Result<FreeBusyTimeParams, ParameterError>)
        ensures
            r is Ok <==> FreeBusyTimeParams::parses(param_pieces(v@)),
            r matches Ok(p) ==> p.describes(param_pieces(v@)),
    {
        let segs = param_segments(v);
        let ghost ps = vec_views(segs@);
        let ghost keys = FreeBusyTimeParams::keys();
        let mut p = FreeBusyTimeParams::new();
        let mut i: usize = 0;
        assert(ps.take(0) =~= Seq::<Seq<u8>>::empty());
        while i < segs.len()
            invariant
                i <= segs.len(),
                ps == vec_views(segs@),
                ps == param_pieces(v@),
                keys == FreeBusyTimeParams::keys(),
                kept(unmodeled(ps.take(i as int), keys)) == Some(
                    (p.spec_shared().iana_bytes(), p.spec_shared().xname_bytes()),
                ),
                forall|j: int|
                    0 <= j < i && named(#[trigger] ps[j], "FBTYPE".spec_bytes()) ==> Fbtype::parses(
                        seg_value(ps[j]),
                    ),
                match last_value(ps.take(i as int), "FBTYPE".spec_bytes()) {
                    Some(w) => p.spec_fb_time_type() matches Some(x) && Fbtype::accepts(w, x),
                    None => p.spec_fb_time_type() is None,
                },
            decreases segs.len() - i,
        {
            let seg = segs[i].as_slice();
            proof {
                lemma_step(ps, keys, i as int);
                assert(seg@ == ps[i as int]);
                FreeBusyTimeParams::lemma_keys_distinct();
                assert(keys[0] == "FBTYPE".spec_bytes());
                lemma_kept_push(unmodeled(ps.take(i as int), keys), ps[i as int]);
            }
            match p.take_segment(seg) {
                Ok(()) => {},
                Err(e) => {
                    proof {
                        if !modeled(ps[i as int], keys) {
                            lemma_kept_unmodeled_fails(ps, keys, i + 1, ps.len() as int);
                        }
                        assert(ps.take(ps.len() as int) =~= ps);
                    }
                    return Err(e);
                },
            }
            i += 1;
        }
        assert(ps.take(segs.len() as int) =~= ps);
        Ok(p)
    }

    /// The unmodeled parameters.
    pub fn shared(&self) -> (r: &SharedParams)
        ensures
            *r == self.spec_shared(),
    {
        &self.shared
    }

    /// The `FBTYPE` parameter.
    pub fn fb_time_type(&self) -> (r: Option<&Fbtype>)
        ensures
            match r {
                Some(x) => self.spec_fb_time_type() == Some(*x),
                None => self.spec_fb_time_type() is None,
            },
    {
        self.fb_time_type.as_ref()
    }

    /// Sets the `FBTYPE` parameter.
    pub fn set_fb_time_type(&mut self, x: Fbtype)
        ensures
            final(self).spec_fb_time_type() == Some(x),
            final(self).spec_shared() == old(self).spec_shared(),
    {
        self.fb_time_type = Some(x);
    }

    /// How the parameters are written: each modeled one that is set, then
    /// the kept ones.
    pub open spec fn ical(&self) -> Seq<u8> {
        self.fb_time_type_text() + self.spec_shared().ical()
    }

    /// The written parameters are valid UTF-8.
    pub proof fn lemma_ical_valid(&self)
        ensures
            valid_utf8(self.ical()),
    {
        self.spec_shared().lemma_ical_valid();
        let mut acc: Seq<u8> = seq![];
        assert(valid_utf8(acc));
        let part = self.fb_time_type_text();
        if let Some(x) = self.spec_fb_time_type() {
            x.lemma_ical_valid();
            vstd::utf8::encode_utf8_valid_utf8(";FBTYPE="@);
            vstd::utf8::valid_utf8_concat(";FBTYPE=".spec_bytes(), x.ical());
        } else {
            Fbtype::Busy.lemma_ical_valid();
            vstd::utf8::encode_utf8_valid_utf8(";FBTYPE="@);
            vstd::utf8::valid_utf8_concat(";FBTYPE=".spec_bytes(), Fbtype::Busy.ical());
        }
        vstd::utf8::valid_utf8_concat(acc, part);
        acc = acc + part;
        vstd::utf8::valid_utf8_concat(acc, self.spec_shared().ical());
        assert(acc + self.spec_shared().ical() =~= self.ical());
    }

    /// The `FBTYPE` parameter as written, when it is set.
    pub open spec fn fb_time_type_text(&self) -> Seq<u8> {
        match self.spec_fb_time_type() {
            Some(x) => ";FBTYPE=".spec_bytes() + x.ical(),
            None => ";FBTYPE=".spec_bytes() + Fbtype::Busy.ical(),
        }
    }

    fn write_fb_time_type(&self, out: &mut Vec<u8>)
        ensures
            final(out)@ == old(out)@ + self.fb_time_type_text(),
    {
        if let Some(x) = &self.fb_time_type {
            append_str(out, ";FBTYPE=");
            x.write_to(out);
        } else {
            append_str(out, ";FBTYPE=");
            Fbtype::Busy.write_to(out);
        }
    }

    /// Appends the parameters as written.
    pub fn write_to(&self, out: &mut Vec<u8>)
        ensures
            final(out)@ == old(out)@ + self.ical(),
    {
        self.write_fb_time_type(out);
        self.shared.write_to(out);
        assert(out@ =~= old(out)@ + self.ical());
    }
}
/// Free or busy time intervals (RFC 5545 §3.8.2.6).
#[derive(Debug)]
pub struct FreeBusyTime {
    value: Vec<Period>,
    params: FreeBusyTimeParams,
}

impl FreeBusyTime {
    /// The property's value.
    pub closed spec fn spec_value(&self) -> Vec<Period> {
        self.value
    }

    /// The property's parameters.
    pub closed spec fn spec_params(&self) -> FreeBusyTimeParams {
        self.params
    }

    /// Whether the rest of a content line, after the name, parses.
    pub open spec fn parses(v: Seq<u8>) -> bool {
        match first_unquoted(v, COLON) {
            Some(k) => FreeBusyTimeParams::parses(param_pieces(v.take(k))) && list_parses::<Period>(v.skip(k + 1)),
            None => false,
        }
    }

    /// Whether this property is what the rest of a content line parses to.
    pub open spec fn describes(&self, v: Seq<u8>) -> bool {
        match first_unquoted(v, COLON) {
            Some(k) => self.spec_params().describes(param_pieces(v.take(k))) && list_accepts(v.skip(k + 1), self.spec_value()@),
            None => false,
        }
    }

    /// Parses the rest of a content line, after the name: the parameters,
    /// `:`, the value.
    pub fn try_from(v: &[u8]) -> (r: Result<FreeBusyTime, ParseError>)
        ensures
            r is Ok <==> FreeBusyTime::parses(v@),
            r matches Ok(p) ==> p.describes(v@),
            first_unquoted(v@, COLON) is None ==> r matches Err(ParseError::Parameter { .. }),
    {
        let (head, tail) = split_remainder(v)?;
        let params = match FreeBusyTimeParams::parse(head.as_slice()) {
            Ok(p) => p,
            Err(e) => {
                return Err(ParseError::Parameters(e));
            },
        };
        let value = match parse_list::<Period>(tail.as_slice()) {
            Ok(x) => x,
            Err(e) => {
                return Err(ParseError::Value(e));
            },
        };
        Ok(FreeBusyTime { value, params })
    }

    /// The property for the periods `value`, of the type `fb_time_type`.
    pub fn new(value: Vec<Period>, fb_time_type: Fbtype) -> (r: FreeBusyTime)
        ensures
            r.spec_value() == value,
            r.spec_params().spec_fb_time_type() == Some(fb_time_type),
            r.spec_params().spec_shared().iana_bytes() == Seq::<Seq<u8>>::empty(),
            r.spec_params().spec_shared().xname_bytes() == Seq::<Seq<u8>>::empty(),
    {
        let mut params = FreeBusyTimeParams::new();
        params.set_fb_time_type(fb_time_type);
        FreeBusyTime { value, params }
    }

    /// The property's value.
    pub fn value(&self) -> (r: &Vec<Period>)
        ensures
            *r == self.spec_value(),
    {
        &self.value
    }

    /// The property's parameters.
    pub fn params(&self) -> (r: &FreeBusyTimeParams)
        ensures
            *r == self.spec_params(),
    {
        &self.params
    }
}

impl Ical for FreeBusyTime {
    /// The content line: `FREEBUSY`, the parameters, `:`, the value.
    open spec fn ical(&self) -> Seq<u8> {
        "FREEBUSY".spec_bytes() + self.spec_params().ical() + seq![COLON] + list_ical(self.spec_value()@)
    }

    proof fn lemma_ical_valid(&self) {
        self.spec_params().lemma_ical_valid();
        lemma_list_valid(self.spec_value()@);
        lemma_line_valid("FREEBUSY", self.spec_params().ical(), list_ical(self.spec_value()@));
    }

    fn write_to(&self, out: &mut Vec<u8>) {
        append_str(out, "FREEBUSY");
        self.params.write_to(out);
        out.push(COLON);
        write_list(self.value.as_slice(), out);
        assert(out@ =~= old(out)@ + self.ical());
    }
}
/// Whether a component takes up time on a calendar (RFC 5545 §3.8.2.7).
#[derive(Debug)]
pub struct TimeTransparency {
    value: TranspValue,
    params: SharedParams,
}

impl TimeTransparency {
    /// The property's value.
    pub closed spec fn spec_value(&self) -> TranspValue {
        self.value
    }

    /// The property's parameters.
    pub closed spec fn spec_params(&self) -> SharedParams {
        self.params
    }

    /// Whether the rest of a content line, after the name, parses.
    pub open spec fn parses(v: Seq<u8>) -> bool {
        match first_unquoted(v, COLON) {
            Some(k) => SharedParams::parses(param_pieces(v.take(k))) && TranspValue::parses(v.skip(k + 1)),
            None => false,
        }
    }

    /// Whether this property is what the rest of a content line parses to.
    pub open spec fn describes(&self, v: Seq<u8>) -> bool {
        match first_unquoted(v, COLON) {
            Some(k) => self.spec_params().describes(param_pieces(v.take(k))) && TranspValue::accepts(v.skip(k + 1), self.spec_value()),
            None => false,
        }
    }

    /// Parses the rest of a content line, after the name: the parameters,
    /// `:`, the value.
    pub fn try_from(v: &[u8]) -> (r: Result<TimeTransparency, ParseError>)
        ensures
            r is Ok <==> TimeTransparency::parses(v@),
            r matches Ok(p) ==> p.describes(v@),
            first_unquoted(v@, COLON) is None ==> r matches Err(ParseError::Parameter { .. }),
    {
        let (head, tail) = split_remainder(v)?;
        let params = match SharedParams::parse(head.as_slice()) {
            Ok(p) => p,
            Err(e) => {
                return Err(ParseError::Parameters(e));
            },
        };
        let value = match TranspValue::try_from(tail.as_slice()) {
            Ok(x) => x,
            Err(e) => {
                return Err(ParseError::Value(e));
            },
        };
        Ok(TimeTransparency { value, params })
    }

    /// The property with no parameters.
    pub fn new(value: TranspValue) -> (r: TimeTransparency)
        ensures
            r.spec_value() == value,
            r.spec_params().iana_bytes() == Seq::<Seq<u8>>::empty(),
            r.spec_params().xname_bytes() == Seq::<Seq<u8>>::empty(),
    {
        TimeTransparency { value, params: SharedParams::new() }
    }

    /// The property's value.
    pub fn value(&self) -> (r: &TranspValue)
        ensures
            *r == self.spec_value(),
    {
        &self.value
    }

    /// The property's parameters.
    pub fn params(&self) -> (r: &SharedParams)
        ensures
            *r == self.spec_params(),
    {
        &self.params
    }
}

impl Ical for TimeTransparency {
    /// The content line: `TRANSP`, the parameters, `:`, the value.
    open spec fn ical(&self) -> Seq<u8> {
        "TRANSP".spec_bytes() + self.spec_params().ical() + seq![COLON] + self.spec_value().ical()
    }

    proof fn lemma_ical_valid(&self) {
        self.spec_params().lemma_ical_valid();
        self.spec_value().lemma_ical_valid();
        lemma_line_valid("TRANSP", self.spec_params().ical(), self.spec_value().ical());
    }

    fn write_to(&self, out: &mut Vec<u8>) {
        append_str(out, "TRANSP");
        self.params.write_to(out);
        out.push(COLON);
        self.value.write_to(out);
        assert(out@ =~= old(out)@ + self.ical());
    }
}
/// Whether time is blocked: `OPAQUE` (the default) or `TRANSPARENT`.
#[derive(Debug)]
pub enum TranspValue {
    /// Blocks time.
    Opaque,
    /// Doesn't block time.
    Transparent,
}

impl TranspValue {
    /// The keyword value `v` spells, if it spells one.
    pub open spec fn keyword(v: Seq<u8>) -> Option<TranspValue> {
        if v == "OPAQUE".spec_bytes() {
            Some(TranspValue::Opaque)
        } else if v == "TRANSPARENT".spec_bytes() {
            Some(TranspValue::Transparent)
        } else {
            None
        }
    }

    /// A keyword is written back as itself: whatever keyword value `v`
    /// reads as is written as `v`.
    pub proof fn lemma_keyword_written(v: Seq<u8>, p: TranspValue)
        requires
            TranspValue::keyword(v) == Some(p),
        ensures
            p.ical() == v,
    {
    }

    /// Whether `v` parses: only the keywords do.
    pub open spec fn parses(v: Seq<u8>) -> bool {
        TranspValue::keyword(v) is Some
    }

    /// Whether `p` is what `v` parses to.
    pub open spec fn accepts(v: Seq<u8>, p: TranspValue) -> bool {
        TranspValue::keyword(v) == Some(p)
    }

    /// Parses the parameter value.
    pub fn try_from(v: &[u8]) -> (r: Result<TranspValue, ValueError>)
        ensures
            r is Ok <==> TranspValue::parses(v@),
            r matches Ok(p) ==> TranspValue::accepts(v@, p),
            r matches Err(e) ==> e is Malformed,
    {
        if eq_str(v, "OPAQUE") {
            Ok(TranspValue::Opaque)
        } else if eq_str(v, "TRANSPARENT") {
            Ok(TranspValue::Transparent)
        } else {
            Err(malformed_value("OPAQUE or TRANSPARENT", v))
        }
    }
}

impl Ical for TranspValue {
    open spec fn ical(&self) -> Seq<u8> {
        match self {
            TranspValue::Opaque => "OPAQUE".spec_bytes(),
            TranspValue::Transparent => "TRANSPARENT".spec_bytes(),
        }
    }

    proof fn lemma_ical_valid(&self) {
        broadcast use vstd::utf8::encode_utf8_valid_utf8;

    }

    fn write_to(&self, out: &mut Vec<u8>) {
        match self {
            TranspValue::Opaque => append_str(out, "OPAQUE"),
            TranspValue::Transparent => append_str(out, "TRANSPARENT"),
        }
    }
}

/// Whether two values have the same type: both dates or both date-times.
pub open spec fn same_kind(a: DateOrDatetime, b: DateOrDatetime) -> bool {
    (a is Date && b is Date) || (a is DateTime && b is DateTime)
}

/// Whether an `RDATE` value may go with a `DTSTART` value: a period always
/// may, a date or date-time only with the same type.
pub open spec fn rdate_kind_agrees(start: DateOrDatetime, v: DateTimePeriod) -> bool {
    match v {
        DateTimePeriod::Period(_) => true,
        DateTimePeriod::Date(_) => start is Date,
        DateTimePeriod::DateTime(_) => start is DateTime,
    }
}

/// The outcome of checking that `other`, the value of the property `name`,
/// has the type of the `DTSTART` value `start`.
pub open spec fn value_type_check(start: DateOrDatetime, other: Option<DateOrDatetime>, name: &'static str) -> Result<
    (),
    ComponentError,
> {
    match other {
        Some(o) => if same_kind(start, o) {
            Ok(())
        } else {
            Err(ComponentError::MismatchedValueType(name, "DTSTART"))
        },
        None => Ok(()),
    }
}

/// The outcome of checking `RRULE`'s `UNTIL` against `DTSTART`.
pub open spec fn until_check(s: DateTimeStart, rrule: Option<RRule>) -> Result<(), ComponentError> {
    match rrule {
        Some(rr) => match rr.spec_value().spec_until() {
            Some(u) => value_type_check(s.spec_value(), Some(u), "RRULE's UNTIL"),
            None => Ok(()),
        },
        None => Ok(()),
    }
}

/// The outcome of checking the types of the `EXDATE` values against
/// `DTSTART`.
pub open spec fn exdate_check(s: DateTimeStart, exdate: Seq<ExceptionDateTimes>) -> Result<
    (),
    ComponentError,
> {
    if forall|i: int, j: int|
        0 <= i < exdate.len() && 0 <= j < exdate[i].spec_value().len() ==> same_kind(
            s.spec_value(),
            #[trigger] exdate[i].spec_value()[j],
        ) {
        Ok(())
    } else {
        Err(ComponentError::MismatchedValueType("EXDATE", "DTSTART"))
    }
}

/// The outcome of checking the types of the `RDATE` values against
/// `DTSTART`.
pub open spec fn rdate_check(s: DateTimeStart, rdate: Seq<RecurrenceDateTimes>) -> Result<
    (),
    ComponentError,
> {
    if forall|i: int, j: int|
        0 <= i < rdate.len() && 0 <= j < rdate[i].spec_value().len() ==> rdate_kind_agrees(
            s.spec_value(),
            #[trigger] rdate[i].spec_value()[j],
        ) {
        Ok(())
    } else {
        Err(ComponentError::MismatchedValueType("RDATE", "DTSTART"))
    }
}

/// The outcome of checking the `TZID`s of the `EXDATE`s against `DTSTART`'s.
pub open spec fn exdate_tzid_check(s: DateTimeStart, exdate: Seq<ExceptionDateTimes>) -> Result<
    (),
    ComponentError,
> {
    if forall|i: int| 0 <= i < exdate.len() ==> (#[trigger] exdate[i]).zone() == s.zone() {
        Ok(())
    } else {
        Err(ComponentError::MismatchedTzid("EXDATE", "DTSTART"))
    }
}

/// The outcome of checking the `TZID`s of the `RDATE`s against `DTSTART`'s.
pub open spec fn rdate_tzid_check(s: DateTimeStart, rdate: Seq<RecurrenceDateTimes>) -> Result<
    (),
    ComponentError,
> {
    if forall|i: int| 0 <= i < rdate.len() ==> (#[trigger] rdate[i]).zone() == s.zone() {
        Ok(())
    } else {
        Err(ComponentError::MismatchedTzid("RDATE", "DTSTART"))
    }
}

/// Whether two texts are the same.
pub(crate) fn same_text(a: &str, b: &str) -> (r: bool)
    ensures
        r == (a@ == b@),
{
    let r = eq_bytes(a.as_bytes(), b.as_bytes());
    proof {
        vstd::utf8::encode_utf8_decode_utf8(a@);
        vstd::utf8::encode_utf8_decode_utf8(b@);
        assert(a.spec_bytes() == vstd::utf8::encode_utf8(a@));
        assert(b.spec_bytes() == vstd::utf8::encode_utf8(b@));
    }
    r
}

/// Whether two optional texts are the same.
pub(crate) fn same_zone(a: Option<&str>, b: Option<&str>) -> (r: bool)
    ensures
        r == (match a {
            Some(x) => Some(x@),
            None => None,
        } == match b {
            Some(x) => Some(x@),
            None => None,
        }),
{
    match (a, b) {
        (Some(x), Some(y)) => same_text(x, y),
        (None, None) => true,
        _ => false,
    }
}

impl DateTimeStart {
    /// The `TZID` parameter's text, if there is one.
    pub fn tzid(&self) -> (r: Option<&str>)
        ensures
            match r {
                Some(t) => self.zone() == Some(t@),
                None => self.zone() is None,
            },
    {
        match self.params.tz_identifier() {
            Some(t) => Some(t.as_str()),
            None => None,
        }
    }

    /// Checks that `other`, the value of the property `name`, has the same
    /// type as this `DTSTART` (RFC 5545 §3.8.2.2, §3.8.2.3).
    pub fn cmp_value_type(&self, other: Option<&DateOrDatetime>, name: &'static str) -> (r: Result<
        (),
        ComponentError,
    >)
        ensures
            r == value_type_check(self.spec_value(), match other {
                Some(o) => Some(*o),
                None => None,
            }, name),
    {
        match other {
            None => Ok(()),
            Some(o) => {
                let same = match (&self.value, o) {
                    (DateOrDatetime::Date(_), DateOrDatetime::Date(_)) => true,
                    (DateOrDatetime::DateTime(_), DateOrDatetime::DateTime(_)) => true,
                    _ => false,
                };
                if same {
                    Ok(())
                } else {
                    Err(ComponentError::MismatchedValueType(name, "DTSTART"))
                }
            },
        }
    }

    /// Checks that the `UNTIL` of `rrule`, if any, has the same type as this
    /// `DTSTART` (RFC 5545 §3.3.10).
    pub fn cmp_until(&self, rrule: Option<&RRule>) -> (r: Result<(), ComponentError>)
        ensures
            r == until_check(*self, match rrule {
                Some(x) => Some(*x),
                None => None,
            }),
    {
        match rrule {
            None => Ok(()),
            Some(rr) => match rr.recur().until() {
                None => Ok(()),
                Some(u) => self.cmp_value_type(Some(u), "RRULE's UNTIL"),
            },
        }
    }

    /// Checks that every `EXDATE` value has the same type as this `DTSTART`
    /// (RFC 5545 §3.8.5.1).
    pub fn cmp_exdate(&self, exdate: &[ExceptionDateTimes]) -> (r: Result<(), ComponentError>)
        ensures
            r == exdate_check(*self, exdate@),
    {
        self.check_exdate_kinds(exdate)
    }

    fn check_exdate_kinds(&self, exdate: &[ExceptionDateTimes]) -> (r: Result<(), ComponentError>)
        ensures
            r == exdate_check(*self, exdate@),
    {
        let mut i: usize = 0;
        while i < exdate.len()
            invariant
                i <= exdate.len(),
                forall|a: int, j: int|
                    0 <= a < i && 0 <= j < exdate@[a].spec_value().len() ==> same_kind(
                        self.spec_value(),
                        #[trigger] exdate@[a].spec_value()[j],
                    ),
            decreases exdate.len() - i,
        {
            let vs = exdate[i].value();
            let mut j: usize = 0;
            while j < vs.len()
                invariant
                    i < exdate.len(),
                    j <= vs.len(),
                    vs@ == exdate@[i as int].spec_value(),
                    forall|a: int, k: int|
                        0 <= a < i && 0 <= k < exdate@[a].spec_value().len() ==> same_kind(
                            self.spec_value(),
                            #[trigger] exdate@[a].spec_value()[k],
                        ),
                    forall|k: int| 0 <= k < j ==> same_kind(self.spec_value(), #[trigger] vs@[k]),
                decreases vs.len() - j,
            {
                let ok = match (&self.value, &vs[j]) {
                    (DateOrDatetime::Date(_), DateOrDatetime::Date(_)) => true,
                    (DateOrDatetime::DateTime(_), DateOrDatetime::DateTime(_)) => true,
                    _ => false,
                };
                if !ok {
                    return Err(ComponentError::MismatchedValueType("EXDATE", "DTSTART"));
                }
                j += 1;
            }
            i += 1;
        }
        Ok(())
    }

    /// Checks that every `RDATE` value is a period or has the same type as
    /// this `DTSTART` (RFC 5545 §3.8.5.2).
    pub fn cmp_rdate(&self, rdate: &[RecurrenceDateTimes]) -> (r: Result<(), ComponentError>)
        ensures
            r == rdate_check(*self, rdate@),
    {
        self.check_rdate_kinds(rdate)
    }

    fn check_rdate_kinds(&self, rdate: &[RecurrenceDateTimes]) -> (r: Result<(), ComponentError>)
        ensures
            r == rdate_check(*self, rdate@),
    {
        let mut i: usize = 0;
        while i < rdate.len()
            invariant
                i <= rdate.len(),
                forall|a: int, j: int|
                    0 <= a < i && 0 <= j < rdate@[a].spec_value().len() ==> rdate_kind_agrees(
                        self.spec_value(),
                        #[trigger] rdate@[a].spec_value()[j],
                    ),
            decreases rdate.len() - i,
        {
            let vs = rdate[i].value();
            let mut j: usize = 0;
            while j < vs.len()
                invariant
                    i < rdate.len(),
                    j <= vs.len(),
                    vs@ == rdate@[i as int].spec_value(),
                    forall|a: int, k: int|
                        0 <= a < i && 0 <= k < rdate@[a].spec_value().len() ==> rdate_kind_agrees(
                            self.spec_value(),
                            #[trigger] rdate@[a].spec_value()[k],
                        ),
                    forall|k: int| 0 <= k < j ==> rdate_kind_agrees(self.spec_value(), #[trigger] vs@[k]),
                decreases vs.len() - j,
            {
                let ok = match (&self.value, &vs[j]) {
                    (_, DateTimePeriod::Period(_)) => true,
                    (DateOrDatetime::Date(_), DateTimePeriod::Date(_)) => true,
                    (DateOrDatetime::DateTime(_), DateTimePeriod::DateTime(_)) => true,
                    _ => false,
                };
                if !ok {
                    return Err(ComponentError::MismatchedValueType("RDATE", "DTSTART"));
                }
                j += 1;
            }
            i += 1;
        }
        Ok(())
    }

    /// Checks that every `EXDATE` has the same `TZID` as this `DTSTART`,
    /// compared as text.
    pub fn cmp_exdate_tzid(&self, exdate: &[ExceptionDateTimes]) -> (r: Result<(), ComponentError>)
        ensures
            r == exdate_tzid_check(*self, exdate@),
    {
        let mine = self.tzid();
        let mut i: usize = 0;
        while i < exdate.len()
            invariant
                i <= exdate.len(),
                match mine {
                    Some(t) => self.zone() == Some(t@),
                    None => self.zone() is None,
                },
                forall|a: int| 0 <= a < i ==> (#[trigger] exdate@[a]).zone() == self.zone(),
            decreases exdate.len() - i,
        {
            if !same_zone(exdate[i].tzid(), mine) {
                return Err(ComponentError::MismatchedTzid("EXDATE", "DTSTART"));
            }
            i += 1;
        }
        Ok(())
    }

    /// Checks that every `RDATE` has the same `TZID` as this `DTSTART`,
    /// compared as text.
    pub fn cmp_rdate_tzid(&self, rdate: &[RecurrenceDateTimes]) -> (r: Result<(), ComponentError>)
        ensures
            r == rdate_tzid_check(*self, rdate@),
    {
        let mine = self.tzid();
        let mut i: usize = 0;
        while i < rdate.len()
            invariant
                i <= rdate.len(),
                match mine {
                    Some(t) => self.zone() == Some(t@),
                    None => self.zone() is None,
                },
                forall|a: int| 0 <= a < i ==> (#[trigger] rdate@[a]).zone() == self.zone(),
            decreases rdate.len() - i,
        {
            if !same_zone(rdate[i].tzid(), mine) {
                return Err(ComponentError::MismatchedTzid("RDATE", "DTSTART"));
            }
            i += 1;
        }
        Ok(())
    }
}

} // verus!
