//! Change management properties (RFC 5545 §3.8.7).

use vstd::prelude::*;
use vstd::string::StringSliceAdditionalSpecFns;
use crate::bytes::{append_str, eq_str, first_unquoted, lemma_str_bytes_differ, param_pieces, param_segments, to_upper, vec_views, COLON};
use crate::params::{
    AlarmTriggerRelationship, Fbtype, RecurrenceIdentifierRange, TimeZoneIdentifier,
    ValueDataType,
};
use crate::properties::{
    keepable, kept, kept_step, last_value, lemma_kept_push, lemma_kept_unmodeled_fails, lemma_line_valid, lemma_step,
    modeled, named, param_name, param_value, seg_value, split_remainder, unmodeled,
    ParameterError, ParseError, SharedParams,
};
use crate::values::{
    lemma_list_valid, list_accepts, list_ical, list_parses, malformed_value, parse_list,
    write_list, Ical, Integer, Text, ValueError,
};
use crate::values::datetime::{date_or_datetime_resolved, DateOrDatetime, DateTime};
use crate::values::duration::{DateTimeDuration, DateTimePeriod, Duration as DurationValue, Period};
use vstd::utf8::valid_utf8;

verus! {

/// When the calendar information was created (RFC 5545 §3.8.7.1).
#[derive(Debug)]
pub struct DateTimeCreated {
    value: DateTime,
    params: SharedParams,
}

impl DateTimeCreated {
    /// The property's value.
    pub closed spec fn spec_value(&self) -> DateTime {
        self.value
    }

    /// The property's parameters.
    pub closed spec fn spec_params(&self) -> SharedParams {
        self.params
    }

    /// Whether the rest of a content line, after the name, parses.
    pub open spec fn parses(v: Seq<u8>) -> bool {
        match first_unquoted(v, COLON) {
            Some(k) => SharedParams::parses(param_pieces(v.take(k))) && DateTime::parses(v.skip(k + 1)),
            None => false,
        }
    }

    /// Whether this property is what the rest of a content line parses to.
    pub open spec fn describes(&self, v: Seq<u8>) -> bool {
        match first_unquoted(v, COLON) {
            Some(k) => self.spec_params().describes(param_pieces(v.take(k))) && DateTime::accepts(v.skip(k + 1), self.spec_value()),
            None => false,
        }
    }

    /// Parses the rest of a content line, after the name: the parameters,
    /// `:`, the value.
    pub fn try_from(v: &[u8]) -> (r: Result<DateTimeCreated, ParseError>)
        ensures
            r is Ok <==> DateTimeCreated::parses(v@),
            r matches Ok(p) ==> p.describes(v@),
            first_unquoted(v@, COLON) is None ==> r matches Err(ParseError::Parameter { .. }),
    {
        let (head, tail) = split_remainder(v)?;
        let params = match SharedParams::parse(head.as_slice()) {
            Ok(p) => p,
            Err(e) => {
                return Err(ParseError::Parameters(e));
            },
        };
        let value = match DateTime::try_from(tail.as_slice()) {
            Ok(x) => x,
            Err(e) => {
                return Err(ParseError::Value(e));
            },
        };
        Ok(DateTimeCreated { value, params })
    }

    /// The property with no parameters.
    pub fn new(value: DateTime) -> (r: DateTimeCreated)
        ensures
            r.spec_value() == value,
            r.spec_params().iana_bytes() == Seq::<Seq<u8>>::empty(),
            r.spec_params().xname_bytes() == Seq::<Seq<u8>>::empty(),
    {
        DateTimeCreated { value, params: SharedParams::new() }
    }

    /// The property's value.
    pub fn value(&self) -> (r: &DateTime)
        ensures
            *r == self.spec_value(),
    {
        &self.value
    }

    /// The property's parameters.
    pub fn params(&self) -> (r: &SharedParams)
        ensures
            *r == self.spec_params(),
    {
        &self.params
    }
}

impl Ical for DateTimeCreated {
    /// The content line: `CREATED`, the parameters, `:`, the value.
    open spec fn ical(&self) -> Seq<u8> {
        "CREATED".spec_bytes() + self.spec_params().ical() + seq![COLON] + self.spec_value().ical()
    }

    proof fn lemma_ical_valid(&self) {
        self.spec_params().lemma_ical_valid();
        self.spec_value().lemma_ical_valid();
        lemma_line_valid("CREATED", self.spec_params().ical(), self.spec_value().ical());
    }

    fn write_to(&self, out: &mut Vec<u8>) {
        append_str(out, "CREATED");
        self.params.write_to(out);
        out.push(COLON);
        self.value.write_to(out);
        assert(out@ =~= old(out)@ + self.ical());
    }
}
/// When the iCalendar object was created, or the information last
/// revised (RFC 5545 §3.8.7.2).
#[derive(Debug)]
pub struct DateTimeStamp {
    value: DateTime,
    params: SharedParams,
}

impl DateTimeStamp {
    /// The property's value.
    pub closed spec fn spec_value(&self) -> DateTime {
        self.value
    }

    /// The property's parameters.
    pub closed spec fn spec_params(&self) -> SharedParams {
        self.params
    }

    /// Whether the rest of a content line, after the name, parses.
    pub open spec fn parses(v: Seq<u8>) -> bool {
        match first_unquoted(v, COLON) {
            Some(k) => SharedParams::parses(param_pieces(v.take(k))) && DateTime::parses(v.skip(k + 1)),
            None => false,
        }
    }

    /// Whether this property is what the rest of a content line parses to.
    pub open spec fn describes(&self, v: Seq<u8>) -> bool {
        match first_unquoted(v, COLON) {
            Some(k) => self.spec_params().describes(param_pieces(v.take(k))) && DateTime::accepts(v.skip(k + 1), self.spec_value()),
            None => false,
        }
    }

    /// Parses the rest of a content line, after the name: the parameters,
    /// `:`, the value.
    pub fn try_from(v: &[u8]) -> (r: Result<DateTimeStamp, ParseError>)
        ensures
            r is Ok <==> DateTimeStamp::parses(v@),
            r matches Ok(p) ==> p.describes(v@),
            first_unquoted(v@, COLON) is None ==> r matches Err(ParseError::Parameter { .. }),
    {
        let (head, tail) = split_remainder(v)?;
        let params = match SharedParams::parse(head.as_slice()) {
            Ok(p) => p,
            Err(e) => {
                return Err(ParseError::Parameters(e));
            },
        };
        let value = match DateTime::try_from(tail.as_slice()) {
            Ok(x) => x,
            Err(e) => {
                return Err(ParseError::Value(e));
            },
        };
        Ok(DateTimeStamp { value, params })
    }

    /// The property with no parameters.
    pub fn new(value: DateTime) -> (r: DateTimeStamp)
        ensures
            r.spec_value() == value,
            r.spec_params().iana_bytes() == Seq::<Seq<u8>>::empty(),
            r.spec_params().xname_bytes() == Seq::<Seq<u8>>::empty(),
    {
        DateTimeStamp { value, params: SharedParams::new() }
    }

    /// The property's value.
    pub fn value(&self) -> (r: &DateTime)
        ensures
            *r == self.spec_value(),
    {
        &self.value
    }

    /// The property's parameters.
    pub fn params(&self) -> (r: &SharedParams)
        ensures
            *r == self.spec_params(),
    {
        &self.params
    }
}

impl Ical for DateTimeStamp {
    /// The content line: `DTSTAMP`, the parameters, `:`, the value.
    open spec fn ical(&self) -> Seq<u8> {
        "DTSTAMP".spec_bytes() + self.spec_params().ical() + seq![COLON] + self.spec_value().ical()
    }

    proof fn lemma_ical_valid(&self) {
        self.spec_params().lemma_ical_valid();
        self.spec_value().lemma_ical_valid();
        lemma_line_valid("DTSTAMP", self.spec_params().ical(), self.spec_value().ical());
    }

    fn write_to(&self, out: &mut Vec<u8>) {
        append_str(out, "DTSTAMP");
        self.params.write_to(out);
        out.push(COLON);
        self.value.write_to(out);
        assert(out@ =~= old(out)@ + self.ical());
    }
}
/// When the component was last revised (RFC 5545 §3.8.7.3).
#[derive(Debug)]
pub struct LastModified {
    value: DateTime,
    params: SharedParams,
}

impl LastModified {
    /// The property's value.
    pub closed spec fn spec_value(&self) -> DateTime {
        self.value
    }

    /// The property's parameters.
    pub closed spec fn spec_params(&self) -> SharedParams {
        self.params
    }

    /// Whether the rest of a content line, after the name, parses.
    pub open spec fn parses(v: Seq<u8>) -> bool {
        match first_unquoted(v, COLON) {
            Some(k) => SharedParams::parses(param_pieces(v.take(k))) && DateTime::parses(v.skip(k + 1)),
            None => false,
        }
    }

    /// Whether this property is what the rest of a content line parses to.
    pub open spec fn describes(&self, v: Seq<u8>) -> bool {
        match first_unquoted(v, COLON) {
            Some(k) => self.spec_params().describes(param_pieces(v.take(k))) && DateTime::accepts(v.skip(k + 1), self.spec_value()),
            None => false,
        }
    }

    /// Parses the rest of a content line, after the name: the parameters,
    /// `:`, the value.
    pub fn try_from(v: &[u8]) -> (r: Result<LastModified, ParseError>)
        ensures
            r is Ok <==> LastModified::parses(v@),
            r matches Ok(p) ==> p.describes(v@),
            first_unquoted(v@, COLON) is None ==> r matches Err(ParseError::Parameter { .. }),
    {
        let (head, tail) = split_remainder(v)?;
        let params = match SharedParams::parse(head.as_slice()) {
            Ok(p) => p,
            Err(e) => {
                return Err(ParseError::Parameters(e));
            },
        };
        let value = match DateTime::try_from(tail.as_slice()) {
            Ok(x) => x,
            Err(e) => {
                return Err(ParseError::Value(e));
            },
        };
        Ok(LastModified { value, params })
    }

    /// The property with no parameters.
    pub fn new(value: DateTime) -> (r: LastModified)
        ensures
            r.spec_value() == value,
            r.spec_params().iana_bytes() == Seq::<Seq<u8>>::empty(),
            r.spec_params().xname_bytes() == Seq::<Seq<u8>>::empty(),
    {
        LastModified { value, params: SharedParams::new() }
    }

    /// The property's value.
    pub fn value(&self) -> (r: &DateTime)
        ensures
            *r == self.spec_value(),
    {
        &self.value
    }

    /// The property's parameters.
    pub fn params(&self) -> (r: &SharedParams)
        ensures
            *r == self.spec_params(),
    {
        &self.params
    }
}

impl Ical for LastModified {
    /// The content line: `LAST-MODIFIED`, the parameters, `:`, the value.
    open spec fn ical(&self) -> Seq<u8> {
        "LAST-MODIFIED".spec_bytes() + self.spec_params().ical() + seq![COLON] + self.spec_value().ical()
    }

    proof fn lemma_ical_valid(&self) {
        self.spec_params().lemma_ical_valid();
        self.spec_value().lemma_ical_valid();
        lemma_line_valid("LAST-MODIFIED", self.spec_params().ical(), self.spec_value().ical());
    }

    fn write_to(&self, out: &mut Vec<u8>) {
        append_str(out, "LAST-MODIFIED");
        self.params.write_to(out);
        out.push(COLON);
        self.value.write_to(out);
        assert(out@ =~= old(out)@ + self.ical());
    }
}
/// The revision sequence number of a component (RFC 5545 §3.8.7.4).
#[derive(Debug)]
pub struct Sequence {
    value: Integer,
    params: SharedParams,
}

impl Sequence {
    /// The property's value.
    pub closed spec fn spec_value(&self) -> Integer {
        self.value
    }

    /// The property's parameters.
    pub closed spec fn spec_params(&self) -> SharedParams {
        self.params
    }

    /// Whether the rest of a content line, after the name, parses.
    pub open spec fn parses(v: Seq<u8>) -> bool {
        match first_unquoted(v, COLON) {
            Some(k) => SharedParams::parses(param_pieces(v.take(k))) && Integer::parses(v.skip(k + 1)),
            None => false,
        }
    }

    /// Whether this property is what the rest of a content line parses to.
    pub open spec fn describes(&self, v: Seq<u8>) -> bool {
        match first_unquoted(v, COLON) {
            Some(k) => self.spec_params().describes(param_pieces(v.take(k))) && Integer::accepts(v.skip(k + 1), self.spec_value()),
            None => false,
        }
    }

    /// Parses the rest of a content line, after the name: the parameters,
    /// `:`, the value.
    pub fn try_from(v: &[u8]) -> (r: Result<Sequence, ParseError>)
        ensures
            r is Ok <==> Sequence::parses(v@),
            r matches Ok(p) ==> p.describes(v@),
            first_unquoted(v@, COLON) is None ==> r matches Err(ParseError::Parameter { .. }),
    {
        let (head, tail) = split_remainder(v)?;
        let params = match SharedParams::parse(head.as_slice()) {
            Ok(p) => p,
            Err(e) => {
                return Err(ParseError::Parameters(e));
            },
        };
        let value = match Integer::try_from(tail.as_slice()) {
            Ok(x) => x,
            Err(e) => {
                return Err(ParseError::Value(e));
            },
        };
        Ok(Sequence { value, params })
    }

    /// The property with no parameters.
    pub fn new(value: Integer) -> (r: Sequence)
        ensures
            r.spec_value() == value,
            r.spec_params().iana_bytes() == Seq::<Seq<u8>>::empty(),
            r.spec_params().xname_bytes() == Seq::<Seq<u8>>::empty(),
    {
        Sequence { value, params: SharedParams::new() }
    }

    /// The property's value.
    pub fn value(&self) -> (r: &Integer)
        ensures
            *r == self.spec_value(),
    {
        &self.value
    }

    /// The property's parameters.
    pub fn params(&self) -> (r: &SharedParams)
        ensures
            *r == self.spec_params(),
    {
        &self.params
    }
}

impl Ical for Sequence {
    /// The content line: `SEQUENCE`, the parameters, `:`, the value.
    open spec fn ical(&self) -> Seq<u8> {
        "SEQUENCE".spec_bytes() + self.spec_params().ical() + seq![COLON] + self.spec_value().ical()
    }

    proof fn lemma_ical_valid(&self) {
        self.spec_params().lemma_ical_valid();
        self.spec_value().lemma_ical_valid();
        lemma_line_valid("SEQUENCE", self.spec_params().ical(), self.spec_value().ical());
    }

    fn write_to(&self, out: &mut Vec<u8>) {
        append_str(out, "SEQUENCE");
        self.params.write_to(out);
        out.push(COLON);
        self.value.write_to(out);
        assert(out@ =~= old(out)@ + self.ical());
    }
}
} // verus!
