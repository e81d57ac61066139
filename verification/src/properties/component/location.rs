//! Location properties (RFC 9073, RFC 7986).

use vstd::prelude::*;
use vstd::string::StringSliceAdditionalSpecFns;
use crate::bytes::{append_str, eq_str, first_unquoted, has_x_prefix, param_pieces, x_prefixed, COLON};
use crate::params::{Altrep, AlarmTriggerRelationship, Language, TimeZoneIdentifier, ValueDataType};
use crate::properties::{
    keepable, kept, kept_step, last_value, lemma_kept_push, lemma_kept_unmodeled_fails, lemma_line_valid, lemma_step,
    modeled, named, param_name, param_value, seg_value, split_remainder, unmodeled,
    AltrepLanguageParams, ParameterError, ParseError, SharedParams,
};
use crate::values::datetime::DateTime;
use crate::values::duration::{zone_view, DateTimeDuration, Zoned};
use crate::bytes::{lemma_str_bytes_differ, param_segments, to_upper, vec_views};
use vstd::utf8::valid_utf8;
use crate::values::{
    lemma_text_list_valid, malformed_value, parse_text_list, text_list_accepts, text_list_ical,
    text_list_parses, unescape_text, write_text_list, Ical, Integer, Text, ValueError,
};

verus! {

/// The name of a calendar or location (RFC 7986 §5.1).
#[derive(Debug)]
pub struct Name {
    value: Text,
    params: AltrepLanguageParams,
}

impl Name {
    /// The property's value.
    pub closed spec fn spec_value(&self) -> Text {
        self.value
    }

    /// The property's parameters.
    pub closed spec fn spec_params(&self) -> AltrepLanguageParams {
        self.params
    }

    /// Whether the rest of a content line, after the name, parses.
    pub open spec fn parses(v: Seq<u8>) -> bool {
        match first_unquoted(v, COLON) {
            Some(k) => AltrepLanguageParams::parses(param_pieces(v.take(k))) && Text::parses(v.skip(k + 1)),
            None => false,
        }
    }

    /// Whether this property is what the rest of a content line parses to.
    pub open spec fn describes(&self, v: Seq<u8>) -> bool {
        match first_unquoted(v, COLON) {
            Some(k) => self.spec_params().describes(param_pieces(v.take(k))) && Text::accepts(v.skip(k + 1), self.spec_value()),
            None => false,
        }
    }

    /// Parses the rest of a content line, after the name: the parameters,
    /// `:`, the value.
    pub fn try_from(v: &[u8]) -> (r: Result<Name, ParseError>)
        ensures
            r is Ok <==> Name::parses(v@),
            r matches Ok(p) ==> p.describes(v@),
            first_unquoted(v@, COLON) is None ==> r matches Err(ParseError::Parameter { .. }),
    {
        let (head, tail) = split_remainder(v)?;
        let params = match AltrepLanguageParams::parse(head.as_slice()) {
            Ok(p) => p,
            Err(e) => {
                return Err(ParseError::Parameters(e));
            },
        };
        let value = match Text::try_from(tail.as_slice()) {
            Ok(x) => x,
            Err(e) => {
                return Err(ParseError::Value(e));
            },
        };
        Ok(Name { value, params })
    }

    /// The property's value.
    pub fn value(&self) -> (r: &Text)
        ensures
            *r == self.spec_value(),
    {
        &self.value
    }

    /// The property's parameters.
    pub fn params(&self) -> (r: &AltrepLanguageParams)
        ensures
            *r == self.spec_params(),
    {
        &self.params
    }
}

impl Ical for Name {
    /// The content line: `NAME`, the parameters, `:`, the value.
    open spec fn ical(&self) -> Seq<u8> {
        "NAME".spec_bytes() + self.spec_params().ical() + seq![COLON] + self.spec_value().ical()
    }

    proof fn lemma_ical_valid(&self) {
        self.spec_params().lemma_ical_valid();
        self.spec_value().lemma_ical_valid();
        lemma_line_valid("NAME", self.spec_params().ical(), self.spec_value().ical());
    }

    fn write_to(&self, out: &mut Vec<u8>) {
        append_str(out, "NAME");
        self.params.write_to(out);
        out.push(COLON);
        self.value.write_to(out);
        assert(out@ =~= old(out)@ + self.ical());
    }
}
/// Builds a [`Name`] with its `ALTREP` and `LANGUAGE` parameters.
#[derive(Debug)]
pub struct NameBuilder {
    value: Text,
    params: AltrepLanguageParams,
}

impl NameBuilder {
    /// The value being built.
    pub closed spec fn spec_value(&self) -> Text {
        self.value
    }

    /// The parameters set so far.
    pub closed spec fn spec_params(&self) -> AltrepLanguageParams {
        self.params
    }

    /// A builder for `value`, with no parameters.
    pub fn new(value: Text) -> (r: NameBuilder)
        ensures
            r.spec_value() == value,
            r.spec_params().spec_altrep() is None,
            r.spec_params().spec_language() is None,
            r.spec_params().spec_shared().iana_bytes() == Seq::<Seq<u8>>::empty(),
            r.spec_params().spec_shared().xname_bytes() == Seq::<Seq<u8>>::empty(),
    {
        NameBuilder { value, params: AltrepLanguageParams::new() }
    }

    /// Sets `ALTREP`.
    pub fn altrep(self, altrep: Altrep) -> (r: NameBuilder)
        ensures
            r.spec_value() == self.spec_value(),
            r.spec_params().spec_altrep() == Some(altrep),
            r.spec_params().spec_language() == self.spec_params().spec_language(),
            r.spec_params().spec_shared() == self.spec_params().spec_shared(),
    {
        let mut b = self;
        b.params.set_altrep(altrep);
        b
    }

    /// Sets `LANGUAGE`.
    pub fn language(self, language: Language) -> (r: NameBuilder)
        ensures
            r.spec_value() == self.spec_value(),
            r.spec_params().spec_language() == Some(language),
            r.spec_params().spec_altrep() == self.spec_params().spec_altrep(),
            r.spec_params().spec_shared() == self.spec_params().spec_shared(),
    {
        let mut b = self;
        b.params.set_language(language);
        b
    }

    /// The property.
    pub fn build(self) -> (r: Name)
        ensures
            r.spec_value() == self.spec_value(),
            r.spec_params() == self.spec_params(),
    {
        Name { value: self.value, params: self.params }
    }
}

/// The types of a location, `,`-separated (RFC 9073 §6.1).
#[derive(Debug)]
pub struct LocationType {
    value: Vec<Text>,
    params: SharedParams,
}

impl LocationType {
    /// The property's value.
    pub closed spec fn spec_value(&self) -> Vec<Text> {
        self.value
    }

    /// The property's parameters.
    pub closed spec fn spec_params(&self) -> SharedParams {
        self.params
    }

    /// Whether the rest of a content line, after the name, parses.
    pub open spec fn parses(v: Seq<u8>) -> bool {
        match first_unquoted(v, COLON) {
            Some(k) => SharedParams::parses(param_pieces(v.take(k))) && text_list_parses(v.skip(k + 1)),
            None => false,
        }
    }

    /// Whether this property is what the rest of a content line parses to.
    pub open spec fn describes(&self, v: Seq<u8>) -> bool {
        match first_unquoted(v, COLON) {
            Some(k) => self.spec_params().describes(param_pieces(v.take(k))) && text_list_accepts(v.skip(k + 1), self.spec_value()@),
            None => false,
        }
    }

    /// Parses the rest of a content line, after the name: the parameters,
    /// `:`, the value.
    pub fn try_from(v: &[u8]) -> (r: Result<LocationType, ParseError>)
        ensures
            r is Ok <==> LocationType::parses(v@),
            r matches Ok(p) ==> p.describes(v@),
            first_unquoted(v@, COLON) is None ==> r matches Err(ParseError::Parameter { .. }),
    {
        let (head, tail) = split_remainder(v)?;
        let params = match SharedParams::parse(head.as_slice()) {
            Ok(p) => p,
            Err(e) => {
                return Err(ParseError::Parameters(e));
            },
        };
        let value = match parse_text_list(tail.as_slice()) {
            Ok(x) => x,
            Err(e) => {
                return Err(ParseError::Value(e));
            },
        };
        Ok(LocationType { value, params })
    }

    /// The property with no parameters.
    pub fn new(value: Vec<Text>) -> (r: LocationType)
        ensures
            r.spec_value() == value,
            r.spec_params().iana_bytes() == Seq::<Seq<u8>>::empty(),
            r.spec_params().xname_bytes() == Seq::<Seq<u8>>::empty(),
    {
        LocationType { value, params: SharedParams::new() }
    }

    /// The property's value.
    pub fn value(&self) -> (r: &Vec<Text>)
        ensures
            *r == self.spec_value(),
    {
        &self.value
    }

    /// The property's parameters.
    pub fn params(&self) -> (r: &SharedParams)
        ensures
            *r == self.spec_params(),
    {
        &self.params
    }
}

impl Ical for LocationType {
    /// The content line: `LOCATION-TYPE`, the parameters, `:`, the value.
    open spec fn ical(&self) -> Seq<u8> {
        "LOCATION-TYPE".spec_bytes() + self.spec_params().ical() + seq![COLON] + text_list_ical(self.spec_value()@)
    }

    proof fn lemma_ical_valid(&self) {
        self.spec_params().lemma_ical_valid();
        lemma_text_list_valid(self.spec_value()@);
        lemma_line_valid("LOCATION-TYPE", self.spec_params().ical(), text_list_ical(self.spec_value()@));
    }

    fn write_to(&self, out: &mut Vec<u8>) {
        append_str(out, "LOCATION-TYPE");
        self.params.write_to(out);
        out.push(COLON);
        write_text_list(self.value.as_slice(), out);
        assert(out@ =~= old(out)@ + self.ical());
    }
}
} // verus!
