//! Alarm extensions (RFC 9074): acknowledgement and proximity.

use vstd::prelude::*;
use vstd::string::StringSliceAdditionalSpecFns;
use crate::bytes::{append_str, eq_str, first_unquoted, has_x_prefix, param_pieces, x_prefixed, COLON};
use crate::params::{Altrep, AlarmTriggerRelationship, Language, TimeZoneIdentifier, ValueDataType};
use crate::properties::{
    keepable, kept, kept_step, last_value, lemma_kept_push, lemma_kept_unmodeled_fails, lemma_line_valid, lemma_step,
    modeled, named, param_name, param_value, seg_value, split_remainder, unmodeled,
    AltrepLanguageParams, ParameterError, ParseError, SharedParams,
};
use crate::values::datetime::DateTime;
use crate::values::duration::{zone_view, DateTimeDuration, Zoned};
use crate::bytes::{lemma_str_bytes_differ, param_segments, to_upper, vec_views};
use vstd::utf8::valid_utf8;
use crate::values::{
    lemma_text_list_valid, malformed_value, parse_text_list, text_list_accepts, text_list_ical,
    text_list_parses, unescape_text, write_text_list, Ical, Integer, Text, ValueError,
};

verus! {

/// When an alarm was last sent or acknowledged (RFC 9074 §6).
#[derive(Debug)]
pub struct Acknowledged {
    value: DateTime,
    params: SharedParams,
}

impl Acknowledged {
    /// The property's value.
    pub closed spec fn spec_value(&self) -> DateTime {
        self.value
    }

    /// The property's parameters.
    pub closed spec fn spec_params(&self) -> SharedParams {
        self.params
    }

    /// Whether the rest of a content line, after the name, parses.
    pub open spec fn parses(v: Seq<u8>) -> bool {
        match first_unquoted(v, COLON) {
            Some(k) => SharedParams::parses(param_pieces(v.take(k))) && DateTime::parses(v.skip(k + 1)),
            None => false,
        }
    }

    /// Whether this property is what the rest of a content line parses to.
    pub open spec fn describes(&self, v: Seq<u8>) -> bool {
        match first_unquoted(v, COLON) {
            Some(k) => self.spec_params().describes(param_pieces(v.take(k))) && DateTime::accepts(v.skip(k + 1), self.spec_value()),
            None => false,
        }
    }

    /// Parses the rest of a content line, after the name: the parameters,
    /// `:`, the value.
    pub fn try_from(v: &[u8]) -> (r: Result<Acknowledged, ParseError>)
        ensures
            r is Ok <==> Acknowledged::parses(v@),
            r matches Ok(p) ==> p.describes(v@),
            first_unquoted(v@, COLON) is None ==> r matches Err(ParseError::Parameter { .. }),
    {
        let (head, tail) = split_remainder(v)?;
        let params = match SharedParams::parse(head.as_slice()) {
            Ok(p) => p,
            Err(e) => {
                return Err(ParseError::Parameters(e));
            },
        };
        let value = match DateTime::try_from(tail.as_slice()) {
            Ok(x) => x,
            Err(e) => {
                return Err(ParseError::Value(e));
            },
        };
        Ok(Acknowledged { value, params })
    }

    /// The property's value.
    pub fn value(&self) -> (r: &DateTime)
        ensures
            *r == self.spec_value(),
    {
        &self.value
    }

    /// The property's parameters.
    pub fn params(&self) -> (r: &SharedParams)
        ensures
            *r == self.spec_params(),
    {
        &self.params
    }
}

impl Ical for Acknowledged {
    /// The content line: `ACKNOWLEDGED`, the parameters, `:`, the value.
    open spec fn ical(&self) -> Seq<u8> {
        "ACKNOWLEDGED".spec_bytes() + self.spec_params().ical() + seq![COLON] + self.spec_value().ical()
    }

    proof fn lemma_ical_valid(&self) {
        self.spec_params().lemma_ical_valid();
        self.spec_value().lemma_ical_valid();
        lemma_line_valid("ACKNOWLEDGED", self.spec_params().ical(), self.spec_value().ical());
    }

    fn write_to(&self, out: &mut Vec<u8>) {
        append_str(out, "ACKNOWLEDGED");
        self.params.write_to(out);
        out.push(COLON);
        self.value.write_to(out);
        assert(out@ =~= old(out)@ + self.ical());
    }
}
/// A location-based trigger for an alarm (RFC 9074 §8.1).
#[derive(Debug)]
pub struct Proximity {
    value: ProximityEnum,
    params: SharedParams,
}

impl Proximity {
    /// The property's value.
    pub closed spec fn spec_value(&self) -> ProximityEnum {
        self.value
    }

    /// The property's parameters.
    pub closed spec fn spec_params(&self) -> SharedParams {
        self.params
    }

    /// Whether the rest of a content line, after the name, parses.
    pub open spec fn parses(v: Seq<u8>) -> bool {
        match first_unquoted(v, COLON) {
            Some(k) => SharedParams::parses(param_pieces(v.take(k))) && ProximityEnum::parses(v.skip(k + 1)),
            None => false,
        }
    }

    /// Whether this property is what the rest of a content line parses to.
    pub open spec fn describes(&self, v: Seq<u8>) -> bool {
        match first_unquoted(v, COLON) {
            Some(k) => self.spec_params().describes(param_pieces(v.take(k))) && ProximityEnum::accepts(v.skip(k + 1), self.spec_value()),
            None => false,
        }
    }

    /// Parses the rest of a content line, after the name: the parameters,
    /// `:`, the value.
    pub fn try_from(v: &[u8]) -> (r: Result<Proximity, ParseError>)
        ensures
            r is Ok <==> Proximity::parses(v@),
            r matches Ok(p) ==> p.describes(v@),
            first_unquoted(v@, COLON) is None ==> r matches Err(ParseError::Parameter { .. }),
    {
        let (head, tail) = split_remainder(v)?;
        let params = match SharedParams::parse(head.as_slice()) {
            Ok(p) => p,
            Err(e) => {
                return Err(ParseError::Parameters(e));
            },
        };
        let value = match ProximityEnum::try_from(tail.as_slice()) {
            Ok(x) => x,
            Err(e) => {
                return Err(ParseError::Value(e));
            },
        };
        Ok(Proximity { value, params })
    }

    /// The property's value.
    pub fn value(&self) -> (r: &ProximityEnum)
        ensures
            *r == self.spec_value(),
    {
        &self.value
    }

    /// The property's parameters.
    pub fn params(&self) -> (r: &SharedParams)
        ensures
            *r == self.spec_params(),
    {
        &self.params
    }
}

impl Ical for Proximity {
    /// The content line: `PROXIMITY`, the parameters, `:`, the value.
    open spec fn ical(&self) -> Seq<u8> {
        "PROXIMITY".spec_bytes() + self.spec_params().ical() + seq![COLON] + self.spec_value().ical()
    }

    proof fn lemma_ical_valid(&self) {
        self.spec_params().lemma_ical_valid();
        self.spec_value().lemma_ical_valid();
        lemma_line_valid("PROXIMITY", self.spec_params().ical(), self.spec_value().ical());
    }

    fn write_to(&self, out: &mut Vec<u8>) {
        append_str(out, "PROXIMITY");
        self.params.write_to(out);
        out.push(COLON);
        self.value.write_to(out);
        assert(out@ =~= old(out)@ + self.ical());
    }
}
/// The kinds of proximity an alarm can trigger on.
#[derive(Debug)]
pub enum ProximityEnum {
    /// The user arrives at the location.
    Arrive,
    /// The user leaves the location.
    Depart,
    /// The device connects to the location's network.
    Connect,
    /// The device disconnects from it.
    Disconnect,
    /// A non-standard, `X-`-prefixed value.
    XName(Text),
    /// A value registered with IANA that isn't one of the values above.
    Iana(Text),
}

impl ProximityEnum {
    /// The keyword value `v` spells, if it spells one.
    pub open spec fn keyword(v: Seq<u8>) -> Option<ProximityEnum> {
        if v == "ARRIVE".spec_bytes() {
            Some(ProximityEnum::Arrive)
        } else if v == "DEPART".spec_bytes() {
            Some(ProximityEnum::Depart)
        } else if v == "CONNECT".spec_bytes() {
            Some(ProximityEnum::Connect)
        } else if v == "DISCONNECT".spec_bytes() {
            Some(ProximityEnum::Disconnect)
        } else {
            None
        }
    }

    /// A keyword is written back as itself: whatever keyword value `v`
    /// reads as is written as `v`.
    pub proof fn lemma_keyword_written(v: Seq<u8>, p: ProximityEnum)
        requires
            ProximityEnum::keyword(v) == Some(p),
        ensures
            p.ical() == v,
    {
    }

    /// Whether `v` parses: a keyword, or else any TEXT.
    pub open spec fn parses(v: Seq<u8>) -> bool {
        ProximityEnum::keyword(v) is Some || Text::parses(v)
    }

    /// Whether `p` is what `v` parses to: its keyword, else its text, as an
    /// x-name when it starts with `X-` and as an iana-token otherwise.
    pub open spec fn accepts(v: Seq<u8>, p: ProximityEnum) -> bool {
        match ProximityEnum::keyword(v) {
            Some(k) => p == k,
            None => {
                ||| (p matches ProximityEnum::XName(t) && has_x_prefix(v) && t.bytes()
                    == unescape_text(v))
                ||| (p matches ProximityEnum::Iana(t) && !has_x_prefix(v) && t.bytes()
                    == unescape_text(v))
            },
        }
    }

    /// Parses the parameter value.
    pub fn try_from(v: &[u8]) -> (r: Result<ProximityEnum, ValueError>)
        ensures
            r is Ok <==> ProximityEnum::parses(v@),
            r matches Ok(p) ==> ProximityEnum::accepts(v@, p),
    {
        if eq_str(v, "ARRIVE") {
            Ok(ProximityEnum::Arrive)
        } else if eq_str(v, "DEPART") {
            Ok(ProximityEnum::Depart)
        } else if eq_str(v, "CONNECT") {
            Ok(ProximityEnum::Connect)
        } else if eq_str(v, "DISCONNECT") {
            Ok(ProximityEnum::Disconnect)
        } else {
            let t = Text::try_from(v)?;
            if x_prefixed(v) {
                Ok(ProximityEnum::XName(t))
            } else {
                Ok(ProximityEnum::Iana(t))
            }
        }
    }
}

impl Ical for ProximityEnum {
    open spec fn ical(&self) -> Seq<u8> {
        match self {
            ProximityEnum::Arrive => "ARRIVE".spec_bytes(),
            ProximityEnum::Depart => "DEPART".spec_bytes(),
            ProximityEnum::Connect => "CONNECT".spec_bytes(),
            ProximityEnum::Disconnect => "DISCONNECT".spec_bytes(),
            ProximityEnum::XName(t) => t.bytes(),
            ProximityEnum::Iana(t) => t.bytes(),
        }
    }

    proof fn lemma_ical_valid(&self) {
        broadcast use vstd::utf8::encode_utf8_valid_utf8;

    }

    fn write_to(&self, out: &mut Vec<u8>) {
        match self {
            ProximityEnum::Arrive => append_str(out, "ARRIVE"),
            ProximityEnum::Depart => append_str(out, "DEPART"),
            ProximityEnum::Connect => append_str(out, "CONNECT"),
            ProximityEnum::Disconnect => append_str(out, "DISCONNECT"),
            ProximityEnum::XName(t) => t.write_raw(out),
            ProximityEnum::Iana(t) => t.write_raw(out),
        }
    }
}
} // verus!
