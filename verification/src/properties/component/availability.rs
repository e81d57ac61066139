//! Availability properties (RFC 7953).

use vstd::prelude::*;
use vstd::string::StringSliceAdditionalSpecFns;
use crate::bytes::{append_str, eq_str, first_unquoted, has_x_prefix, param_pieces, x_prefixed, COLON};
use crate::params::{Altrep, AlarmTriggerRelationship, Language, TimeZoneIdentifier, ValueDataType};
use crate::properties::{
    keepable, kept, kept_step, last_value, lemma_kept_push, lemma_kept_unmodeled_fails, lemma_line_valid, lemma_step,
    modeled, named, param_name, param_value, seg_value, split_remainder, unmodeled,
    AltrepLanguageParams, ParameterError, ParseError, SharedParams,
};
use crate::values::datetime::DateTime;
use crate::values::duration::{zone_view, DateTimeDuration, Zoned};
use crate::bytes::{lemma_str_bytes_differ, param_segments, to_upper, vec_views};
use vstd::utf8::valid_utf8;
use crate::values::{
    lemma_text_list_valid, malformed_value, parse_text_list, text_list_accepts, text_list_ical,
    text_list_parses, unescape_text, write_text_list, Ical, Integer, Text, ValueError,
};

verus! {

/// The busy time type of an availability component (RFC 7953 §3.2).
#[derive(Debug)]
pub struct BusyType {
    value: BusyTypeEnum,
    params: SharedParams,
}

impl BusyType {
    /// The property's value.
    pub closed spec fn spec_value(&self) -> BusyTypeEnum {
        self.value
    }

    /// The property's parameters.
    pub closed spec fn spec_params(&self) -> SharedParams {
        self.params
    }

    /// Whether the rest of a content line, after the name, parses.
    pub open spec fn parses(v: Seq<u8>) -> bool {
        match first_unquoted(v, COLON) {
            Some(k) => SharedParams::parses(param_pieces(v.take(k))) && BusyTypeEnum::parses(v.skip(k + 1)),
            None => false,
        }
    }

    /// Whether this property is what the rest of a content line parses to.
    pub open spec fn describes(&self, v: Seq<u8>) -> bool {
        match first_unquoted(v, COLON) {
            Some(k) => self.spec_params().describes(param_pieces(v.take(k))) && BusyTypeEnum::accepts(v.skip(k + 1), self.spec_value()),
            None => false,
        }
    }

    /// Parses the rest of a content line, after the name: the parameters,
    /// `:`, the value.
    pub fn try_from(v: &[u8]) -> (r: Result<BusyType, ParseError>)
        ensures
            r is Ok <==> BusyType::parses(v@),
            r matches Ok(p) ==> p.describes(v@),
            first_unquoted(v@, COLON) is None ==> r matches Err(ParseError::Parameter { .. }),
    {
        let (head, tail) = split_remainder(v)?;
        let params = match SharedParams::parse(head.as_slice()) {
            Ok(p) => p,
            Err(e) => {
                return Err(ParseError::Parameters(e));
            },
        };
        let value = match BusyTypeEnum::try_from(tail.as_slice()) {
            Ok(x) => x,
            Err(e) => {
                return Err(ParseError::Value(e));
            },
        };
        Ok(BusyType { value, params })
    }

    /// The property's value.
    pub fn value(&self) -> (r: &BusyTypeEnum)
        ensures
            *r == self.spec_value(),
    {
        &self.value
    }

    /// The property's parameters.
    pub fn params(&self) -> (r: &SharedParams)
        ensures
            *r == self.spec_params(),
    {
        &self.params
    }
}

impl Ical for BusyType {
    /// The content line: `BUSYTYPE`, the parameters, `:`, the value.
    open spec fn ical(&self) -> Seq<u8> {
        "BUSYTYPE".spec_bytes() + self.spec_params().ical() + seq![COLON] + self.spec_value().ical()
    }

    proof fn lemma_ical_valid(&self) {
        self.spec_params().lemma_ical_valid();
        self.spec_value().lemma_ical_valid();
        lemma_line_valid("BUSYTYPE", self.spec_params().ical(), self.spec_value().ical());
    }

    fn write_to(&self, out: &mut Vec<u8>) {
        append_str(out, "BUSYTYPE");
        self.params.write_to(out);
        out.push(COLON);
        self.value.write_to(out);
        assert(out@ =~= old(out)@ + self.ical());
    }
}
/// The busy time types.
#[derive(Debug)]
pub enum BusyTypeEnum {
    /// Busy.
    Busy,
    /// Busy and unavailable.
    BusyUnavailable,
    /// Tentatively busy.
    BusyTentative,
    /// A non-standard, `X-`-prefixed value.
    XName(Text),
    /// A value registered with IANA that isn't one of the values above.
    Iana(Text),
}

impl BusyTypeEnum {
    /// The keyword value `v` spells, if it spells one.
    pub open spec fn keyword(v: Seq<u8>) -> Option<BusyTypeEnum> {
        if v == "BUSY".spec_bytes() {
            Some(BusyTypeEnum::Busy)
        } else if v == "BUSY-UNAVAILABLE".spec_bytes() {
            Some(BusyTypeEnum::BusyUnavailable)
        } else if v == "BUSY-TENTATIVE".spec_bytes() {
            Some(BusyTypeEnum::BusyTentative)
        } else {
            None
        }
    }

    /// A keyword is written back as itself: whatever keyword value `v`
    /// reads as is written as `v`.
    pub proof fn lemma_keyword_written(v: Seq<u8>, p: BusyTypeEnum)
        requires
            BusyTypeEnum::keyword(v) == Some(p),
        ensures
            p.ical() == v,
    {
    }

    /// Whether `v` parses: a keyword, or else any TEXT.
    pub open spec fn parses(v: Seq<u8>) -> bool {
        BusyTypeEnum::keyword(v) is Some || Text::parses(v)
    }

    /// Whether `p` is what `v` parses to: its keyword, else its text, as an
    /// x-name when it starts with `X-` and as an iana-token otherwise.
    pub open spec fn accepts(v: Seq<u8>, p: BusyTypeEnum) -> bool {
        match BusyTypeEnum::keyword(v) {
            Some(k) => p == k,
            None => {
                ||| (p matches BusyTypeEnum::XName(t) && has_x_prefix(v) && t.bytes()
                    == unescape_text(v))
                ||| (p matches BusyTypeEnum::Iana(t) && !has_x_prefix(v) && t.bytes()
                    == unescape_text(v))
            },
        }
    }

    /// Parses the parameter value.
    pub fn try_from(v: &[u8]) -> (r: Result<BusyTypeEnum, ValueError>)
        ensures
            r is Ok <==> BusyTypeEnum::parses(v@),
            r matches Ok(p) ==> BusyTypeEnum::accepts(v@, p),
    {
        if eq_str(v, "BUSY") {
            Ok(BusyTypeEnum::Busy)
        } else if eq_str(v, "BUSY-UNAVAILABLE") {
            Ok(BusyTypeEnum::BusyUnavailable)
        } else if eq_str(v, "BUSY-TENTATIVE") {
            Ok(BusyTypeEnum::BusyTentative)
        } else {
            let t = Text::try_from(v)?;
            if x_prefixed(v) {
                Ok(BusyTypeEnum::XName(t))
            } else {
                Ok(BusyTypeEnum::Iana(t))
            }
        }
    }
}

impl Ical for BusyTypeEnum {
    open spec fn ical(&self) -> Seq<u8> {
        match self {
            BusyTypeEnum::Busy => "BUSY".spec_bytes(),
            BusyTypeEnum::BusyUnavailable => "BUSY-UNAVAILABLE".spec_bytes(),
            BusyTypeEnum::BusyTentative => "BUSY-TENTATIVE".spec_bytes(),
            BusyTypeEnum::XName(t) => t.bytes(),
            BusyTypeEnum::Iana(t) => t.bytes(),
        }
    }

    proof fn lemma_ical_valid(&self) {
        broadcast use vstd::utf8::encode_utf8_valid_utf8;

    }

    fn write_to(&self, out: &mut Vec<u8>) {
        match self {
            BusyTypeEnum::Busy => append_str(out, "BUSY"),
            BusyTypeEnum::BusyUnavailable => append_str(out, "BUSY-UNAVAILABLE"),
            BusyTypeEnum::BusyTentative => append_str(out, "BUSY-TENTATIVE"),
            BusyTypeEnum::XName(t) => t.write_raw(out),
            BusyTypeEnum::Iana(t) => t.write_raw(out),
        }
    }
}
} // verus!
