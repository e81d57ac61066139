//! Property parameters (RFC 5545 §3.2, RFC 7986 §6): each one's grammar,
//! its typed form, and how it is written back.

use vstd::prelude::*;
use vstd::string::StringSliceAdditionalSpecFns;
use vstd::utf8::{encode_utf8, encode_utf8_valid_utf8, valid_utf8};
use crate::bytes::{
    append, append_str, copy_range, eq_str, first_byte, has_x_prefix, is_quoted, joined,
    lemma_joined_push, lemma_joined_valid, lemma_quote_valid, maybe_quoted, maybe_unquoted,
    pieces, quote, split_all, strip_quoted_string, unquoted, vec_views, x_prefixed, COLON, COMMA,
    DQUOTE, SEMICOLON, SLASH,
};
use crate::values::datetime::{parse_zone, zone_known, zone_name};
use crate::values::{
    boolean_of, escape_text, is_media_type, is_uri, string_from_utf8, unescape_text, Boolean,
    CalendarUserAddress, Ical, MediaType, Text, Uri, ValueError,
};

verus! {

/// A single property parameter (`ALTREP`, `LANGUAGE`, `TZID`, ...) failed to
/// parse into its typed representation.
#[derive(Debug)]
pub enum ParamError {
    /// `RRULE`'s `FREQ` value didn't match one of the defined frequency names.
    InvalidFreq(String),
    /// A weekday value (e.g. in `BYDAY`) didn't match one of the two-letter
    /// weekday abbreviations.
    InvalidWeekday(String),
    /// The `LANGUAGE` parameter's value isn't a well-formed language tag.
    Language,
    /// The parameter value isn't a valid `quoted-string`.
    QuotedString,
    /// The parameter value didn't match its expected grammar.
    Malformed {
        /// What the parameter value is supposed to be
        expected: String,
        /// What we actually received
        received: Option<String>,
    },
    /// A param that's a thin wrapper over a value type failed at that inner
    /// value's own parse step.
    Value(ValueError),
    /// The param's raw bytes aren't UTF-8.
    Utf8,
}

/// The error for a value that isn't what `expected` names.
fn malformed(expected: &str, v: &[u8]) -> (r: ParamError)
    ensures
        r is Malformed,
{
    ParamError::Malformed {
        expected: expected.to_owned(),
        received: string_from_utf8(copy_range(v, 0, v.len())),
    }
}

/// Whether `v` can be held as TEXT: its decoded bytes are UTF-8.
pub open spec fn is_token(v: Seq<u8>) -> bool {
    valid_utf8(unescape_text(v))
}

/// The text of a value that is none of its parameter's keywords.
fn token(v: &[u8]) -> (r: Result<Text, ParamError>)
    ensures
        r is Ok <==> is_token(v@),
        r matches Ok(t) ==> t.bytes() == unescape_text(v@),
        r matches Err(e) ==> e is Value,
{
    match Text::parse(v) {
        Ok(t) => Ok(t),
        Err(e) => Err(ParamError::Value(e)),
    }
}

/// The inside of a quoted-string, or [`ParamError::QuotedString`].
fn quoted(v: &[u8]) -> (r: Result<Vec<u8>, ParamError>)
    ensures
        r is Ok <==> is_quoted(v@),
        r matches Ok(inner) ==> inner@ == unquoted(v@),
        r matches Err(e) ==> e is QuotedString,
{
    match strip_quoted_string(v) {
        Some(inner) => Ok(inner),
        None => Err(ParamError::QuotedString),
    }
}


/// Explicit value type for a property, as carried by the `VALUE` parameter
/// (RFC 5545 §3.2.20). The property values MUST be of a single value type.
#[derive(Debug)]
pub enum ValueDataType {
    /// Inline binary data encoded as BASE64.
    Binary,
    /// A URI reference (RFC 3986).
    Uri,
    /// Plain text, with BACKSLASH escaping for special characters.
    Text,
    /// `TRUE` or `FALSE`.
    Boolean,
    /// A calendar user address (`mailto:` URI).
    CalAddress,
    /// An ISO 8601 calendar date.
    Date,
    /// An ISO 8601 calendar date and time of day.
    DateTime,
    /// An ISO 8601 duration.
    Duration,
    /// A floating-point number.
    Float,
    /// A signed 32-bit integer.
    Integer,
    /// A time period (start/end or start/duration).
    Period,
    /// A recurrence rule (`RRULE`).
    Recur,
    /// An ISO 8601 time of day.
    Time,
    /// A UTC offset (e.g. `-0500`).
    UtcOffset,
    /// A non-standard, `X-`-prefixed value.
    XName(Text),
    /// A value registered with IANA that isn't one of the values above.
    Iana(Text),
}

impl ValueDataType {
    /// The keyword value `v` spells, if it spells one.
    pub open spec fn keyword(v: Seq<u8>) -> Option<ValueDataType> {
        if v == "BINARY".spec_bytes() {
            Some(ValueDataType::Binary)
        } else if v == "URI".spec_bytes() {
            Some(ValueDataType::Uri)
        } else if v == "TEXT".spec_bytes() {
            Some(ValueDataType::Text)
        } else if v == "BOOLEAN".spec_bytes() {
            Some(ValueDataType::Boolean)
        } else if v == "CAL-ADDRESS".spec_bytes() {
            Some(ValueDataType::CalAddress)
        } else if v == "DATE".spec_bytes() {
            Some(ValueDataType::Date)
        } else if v == "DATE-TIME".spec_bytes() {
            Some(ValueDataType::DateTime)
        } else if v == "DURATION".spec_bytes() {
            Some(ValueDataType::Duration)
        } else if v == "FLOAT".spec_bytes() {
            Some(ValueDataType::Float)
        } else if v == "INTEGER".spec_bytes() {
            Some(ValueDataType::Integer)
        } else if v == "PERIOD".spec_bytes() {
            Some(ValueDataType::Period)
        } else if v == "RECUR".spec_bytes() {
            Some(ValueDataType::Recur)
        } else if v == "TIME".spec_bytes() {
            Some(ValueDataType::Time)
        } else if v == "UTC-OFFSET".spec_bytes() {
            Some(ValueDataType::UtcOffset)
        } else {
            None
        }
    }

    /// A keyword is written back as itself: whatever keyword value `v`
    /// reads as is written as `v`.
    pub proof fn lemma_keyword_written(v: Seq<u8>, p: ValueDataType)
        requires
            ValueDataType::keyword(v) == Some(p),
        ensures
            p.ical() == v,
    {
    }

    /// Whether `v` parses: a keyword, or else any TEXT.
    pub open spec fn parses(v: Seq<u8>) -> bool {
        ValueDataType::keyword(v) is Some || is_token(v)
    }

    /// Whether `p` is what `v` parses to: its keyword, else its text, as an
    /// x-name when it starts with `X-` and as an iana-token otherwise.
    pub open spec fn accepts(v: Seq<u8>, p: ValueDataType) -> bool {
        match ValueDataType::keyword(v) {
            Some(k) => p == k,
            None => {
                ||| (p matches ValueDataType::XName(t) && has_x_prefix(v) && t.bytes()
                    == unescape_text(v))
                ||| (p matches ValueDataType::Iana(t) && !has_x_prefix(v) && t.bytes()
                    == unescape_text(v))
            },
        }
    }

    /// Parses the parameter value.
    pub fn try_from(v: &[u8]) -> (r: Result<ValueDataType, ParamError>)
        ensures
            r is Ok <==> ValueDataType::parses(v@),
            r matches Ok(p) ==> ValueDataType::accepts(v@, p),
            r matches Err(e) ==> e is Value,
    {
        if eq_str(v, "BINARY") {
            Ok(ValueDataType::Binary)
        } else if eq_str(v, "URI") {
            Ok(ValueDataType::Uri)
        } else if eq_str(v, "TEXT") {
            Ok(ValueDataType::Text)
        } else if eq_str(v, "BOOLEAN") {
            Ok(ValueDataType::Boolean)
        } else if eq_str(v, "CAL-ADDRESS") {
            Ok(ValueDataType::CalAddress)
        } else if eq_str(v, "DATE") {
            Ok(ValueDataType::Date)
        } else if eq_str(v, "DATE-TIME") {
            Ok(ValueDataType::DateTime)
        } else if eq_str(v, "DURATION") {
            Ok(ValueDataType::Duration)
        } else if eq_str(v, "FLOAT") {
            Ok(ValueDataType::Float)
        } else if eq_str(v, "INTEGER") {
            Ok(ValueDataType::Integer)
        } else if eq_str(v, "PERIOD") {
            Ok(ValueDataType::Period)
        } else if eq_str(v, "RECUR") {
            Ok(ValueDataType::Recur)
        } else if eq_str(v, "TIME") {
            Ok(ValueDataType::Time)
        } else if eq_str(v, "UTC-OFFSET") {
            Ok(ValueDataType::UtcOffset)
        } else {
            let t = token(v)?;
            if x_prefixed(v) {
                Ok(ValueDataType::XName(t))
            } else {
                Ok(ValueDataType::Iana(t))
            }
        }
    }
}

impl Ical for ValueDataType {
    open spec fn ical(&self) -> Seq<u8> {
        match self {
            ValueDataType::Binary => "BINARY".spec_bytes(),
            ValueDataType::Uri => "URI".spec_bytes(),
            ValueDataType::Text => "TEXT".spec_bytes(),
            ValueDataType::Boolean => "BOOLEAN".spec_bytes(),
            ValueDataType::CalAddress => "CAL-ADDRESS".spec_bytes(),
            ValueDataType::Date => "DATE".spec_bytes(),
            ValueDataType::DateTime => "DATE-TIME".spec_bytes(),
            ValueDataType::Duration => "DURATION".spec_bytes(),
            ValueDataType::Float => "FLOAT".spec_bytes(),
            ValueDataType::Integer => "INTEGER".spec_bytes(),
            ValueDataType::Period => "PERIOD".spec_bytes(),
            ValueDataType::Recur => "RECUR".spec_bytes(),
            ValueDataType::Time => "TIME".spec_bytes(),
            ValueDataType::UtcOffset => "UTC-OFFSET".spec_bytes(),
            ValueDataType::XName(t) => t.bytes(),
            ValueDataType::Iana(t) => t.bytes(),
        }
    }

    proof fn lemma_ical_valid(&self) {
        broadcast use vstd::utf8::encode_utf8_valid_utf8;

    }

    fn write_to(&self, out: &mut Vec<u8>) {
        match self {
            ValueDataType::Binary => append_str(out, "BINARY"),
            ValueDataType::Uri => append_str(out, "URI"),
            ValueDataType::Text => append_str(out, "TEXT"),
            ValueDataType::Boolean => append_str(out, "BOOLEAN"),
            ValueDataType::CalAddress => append_str(out, "CAL-ADDRESS"),
            ValueDataType::Date => append_str(out, "DATE"),
            ValueDataType::DateTime => append_str(out, "DATE-TIME"),
            ValueDataType::Duration => append_str(out, "DURATION"),
            ValueDataType::Float => append_str(out, "FLOAT"),
            ValueDataType::Integer => append_str(out, "INTEGER"),
            ValueDataType::Period => append_str(out, "PERIOD"),
            ValueDataType::Recur => append_str(out, "RECUR"),
            ValueDataType::Time => append_str(out, "TIME"),
            ValueDataType::UtcOffset => append_str(out, "UTC-OFFSET"),
            ValueDataType::XName(t) => t.write_raw(out),
            ValueDataType::Iana(t) => t.write_raw(out),
        }
    }
}

/// The inline encoding used in a property value (RFC 5545 §3.2.7): `8BIT`
/// text or `BASE64` binary, which `VALUE=BINARY` requires.
#[derive(Debug)]
pub enum Encoding {
    /// Default 8-bit text encoding.
    Bit8,
    /// BASE64 binary encoding, required when `VALUE=BINARY`.
    Base64,
}

impl Encoding {
    /// The keyword value `v` spells, if it spells one.
    pub open spec fn keyword(v: Seq<u8>) -> Option<Encoding> {
        if v == "8BIT".spec_bytes() {
            Some(Encoding::Bit8)
        } else if v == "BASE64".spec_bytes() {
            Some(Encoding::Base64)
        } else {
            None
        }
    }

    /// A keyword is written back as itself: whatever keyword value `v`
    /// reads as is written as `v`.
    pub proof fn lemma_keyword_written(v: Seq<u8>, p: Encoding)
        requires
            Encoding::keyword(v) == Some(p),
        ensures
            p.ical() == v,
    {
    }

    /// Whether `v` parses: only the keywords do.
    pub open spec fn parses(v: Seq<u8>) -> bool {
        Encoding::keyword(v) is Some
    }

    /// Whether `p` is what `v` parses to.
    pub open spec fn accepts(v: Seq<u8>, p: Encoding) -> bool {
        Encoding::keyword(v) == Some(p)
    }

    /// Parses the parameter value.
    pub fn try_from(v: &[u8]) -> (r: Result<Encoding, ParamError>)
        ensures
            r is Ok <==> Encoding::parses(v@),
            r matches Ok(p) ==> Encoding::accepts(v@, p),
            r matches Err(e) ==> e is Malformed,
    {
        if eq_str(v, "8BIT") {
            Ok(Encoding::Bit8)
        } else if eq_str(v, "BASE64") {
            Ok(Encoding::Base64)
        } else {
            Err(malformed("BASE64 or 8BIT", v))
        }
    }
}

impl Ical for Encoding {
    open spec fn ical(&self) -> Seq<u8> {
        match self {
            Encoding::Bit8 => "8BIT".spec_bytes(),
            Encoding::Base64 => "BASE64".spec_bytes(),
        }
    }

    proof fn lemma_ical_valid(&self) {
        broadcast use vstd::utf8::encode_utf8_valid_utf8;

    }

    fn write_to(&self, out: &mut Vec<u8>) {
        match self {
            Encoding::Bit8 => append_str(out, "8BIT"),
            Encoding::Base64 => append_str(out, "BASE64"),
        }
    }
}

/// The free or busy time type (RFC 5545 §3.2.9). Unrecognized x-name and
/// iana-token values are to be treated as `BUSY`.
#[derive(Debug)]
pub enum Fbtype {
    /// The interval is free for scheduling.
    Free,
    /// The interval is busy (one or more events scheduled).
    Busy,
    /// The interval is busy and cannot be scheduled.
    BusyUnavailable,
    /// The interval is tentatively busy.
    BusyTentative,
    /// A non-standard, `X-`-prefixed value.
    X(Text),
    /// A value registered with IANA that isn't one of the values above.
    Iana(Text),
}

impl Fbtype {
    /// The keyword value `v` spells, if it spells one.
    pub open spec fn keyword(v: Seq<u8>) -> Option<Fbtype> {
        if v == "FREE".spec_bytes() {
            Some(Fbtype::Free)
        } else if v == "BUSY".spec_bytes() {
            Some(Fbtype::Busy)
        } else if v == "BUSY-UNAVAILABLE".spec_bytes() {
            Some(Fbtype::BusyUnavailable)
        } else if v == "BUSY-TENTATIVE".spec_bytes() {
            Some(Fbtype::BusyTentative)
        } else {
            None
        }
    }

    /// A keyword is written back as itself: whatever keyword value `v`
    /// reads as is written as `v`.
    pub proof fn lemma_keyword_written(v: Seq<u8>, p: Fbtype)
        requires
            Fbtype::keyword(v) == Some(p),
        ensures
            p.ical() == v,
    {
    }

    /// Whether `v` parses: a keyword, or else any TEXT.
    pub open spec fn parses(v: Seq<u8>) -> bool {
        Fbtype::keyword(v) is Some || is_token(v)
    }

    /// Whether `p` is what `v` parses to: its keyword, else its text, as an
    /// x-name when it starts with `X-` and as an iana-token otherwise.
    pub open spec fn accepts(v: Seq<u8>, p: Fbtype) -> bool {
        match Fbtype::keyword(v) {
            Some(k) => p == k,
            None => {
                ||| (p matches Fbtype::X(t) && has_x_prefix(v) && t.bytes()
                    == unescape_text(v))
                ||| (p matches Fbtype::Iana(t) && !has_x_prefix(v) && t.bytes()
                    == unescape_text(v))
            },
        }
    }

    /// Parses the parameter value.
    pub fn try_from(v: &[u8]) -> (r: Result<Fbtype, ParamError>)
        ensures
            r is Ok <==> Fbtype::parses(v@),
            r matches Ok(p) ==> Fbtype::accepts(v@, p),
            r matches Err(e) ==> e is Value,
    {
        if eq_str(v, "FREE") {
            Ok(Fbtype::Free)
        } else if eq_str(v, "BUSY") {
            Ok(Fbtype::Busy)
        } else if eq_str(v, "BUSY-UNAVAILABLE") {
            Ok(Fbtype::BusyUnavailable)
        } else if eq_str(v, "BUSY-TENTATIVE") {
            Ok(Fbtype::BusyTentative)
        } else {
            let t = token(v)?;
            if x_prefixed(v) {
                Ok(Fbtype::X(t))
            } else {
                Ok(Fbtype::Iana(t))
            }
        }
    }
}

impl Ical for Fbtype {
    open spec fn ical(&self) -> Seq<u8> {
        match self {
            Fbtype::Free => "FREE".spec_bytes(),
            Fbtype::Busy => "BUSY".spec_bytes(),
            Fbtype::BusyUnavailable => "BUSY-UNAVAILABLE".spec_bytes(),
            Fbtype::BusyTentative => "BUSY-TENTATIVE".spec_bytes(),
            Fbtype::X(t) => t.bytes(),
            Fbtype::Iana(t) => t.bytes(),
        }
    }

    proof fn lemma_ical_valid(&self) {
        broadcast use vstd::utf8::encode_utf8_valid_utf8;

    }

    fn write_to(&self, out: &mut Vec<u8>) {
        match self {
            Fbtype::Free => append_str(out, "FREE"),
            Fbtype::Busy => append_str(out, "BUSY"),
            Fbtype::BusyUnavailable => append_str(out, "BUSY-UNAVAILABLE"),
            Fbtype::BusyTentative => append_str(out, "BUSY-TENTATIVE"),
            Fbtype::X(t) => t.write_raw(out),
            Fbtype::Iana(t) => t.write_raw(out),
        }
    }
}

/// The type of calendar user a CAL-ADDRESS names (RFC 5545 §3.2.3).
#[derive(Debug)]
pub enum CalendarUserType {
    /// A single person. Default.
    Individual,
    /// A group of calendar users.
    Group,
    /// A physical resource (e.g. a projector).
    Resource,
    /// A room resource.
    Room,
    /// The type is unknown.
    Unknown,
    /// A non-standard, `X-`-prefixed value.
    X(Text),
    /// A value registered with IANA that isn't one of the values above.
    Iana(Text),
}

impl CalendarUserType {
    /// The keyword value `v` spells, if it spells one.
    pub open spec fn keyword(v: Seq<u8>) -> Option<CalendarUserType> {
        if v == "INDIVIDUAL".spec_bytes() {
            Some(CalendarUserType::Individual)
        } else if v == "GROUP".spec_bytes() {
            Some(CalendarUserType::Group)
        } else if v == "RESOURCE".spec_bytes() {
            Some(CalendarUserType::Resource)
        } else if v == "ROOM".spec_bytes() {
            Some(CalendarUserType::Room)
        } else if v == "UNKNOWN".spec_bytes() {
            Some(CalendarUserType::Unknown)
        } else {
            None
        }
    }

    /// A keyword is written back as itself: whatever keyword value `v`
    /// reads as is written as `v`.
    pub proof fn lemma_keyword_written(v: Seq<u8>, p: CalendarUserType)
        requires
            CalendarUserType::keyword(v) == Some(p),
        ensures
            p.ical() == v,
    {
    }

    /// Whether `v` parses: a keyword, or else any TEXT.
    pub open spec fn parses(v: Seq<u8>) -> bool {
        CalendarUserType::keyword(v) is Some || is_token(v)
    }

    /// Whether `p` is what `v` parses to: its keyword, else its text, as an
    /// x-name when it starts with `X-` and as an iana-token otherwise.
    pub open spec fn accepts(v: Seq<u8>, p: CalendarUserType) -> bool {
        match CalendarUserType::keyword(v) {
            Some(k) => p == k,
            None => {
                ||| (p matches CalendarUserType::X(t) && has_x_prefix(v) && t.bytes()
                    == unescape_text(v))
                ||| (p matches CalendarUserType::Iana(t) && !has_x_prefix(v) && t.bytes()
                    == unescape_text(v))
            },
        }
    }

    /// Parses the parameter value.
    pub fn try_from(v: &[u8]) -> (r: Result<CalendarUserType, ParamError>)
        ensures
            r is Ok <==> CalendarUserType::parses(v@),
            r matches Ok(p) ==> CalendarUserType::accepts(v@, p),
            r matches Err(e) ==> e is Value,
    {
        if eq_str(v, "INDIVIDUAL") {
            Ok(CalendarUserType::Individual)
        } else if eq_str(v, "GROUP") {
            Ok(CalendarUserType::Group)
        } else if eq_str(v, "RESOURCE") {
            Ok(CalendarUserType::Resource)
        } else if eq_str(v, "ROOM") {
            Ok(CalendarUserType::Room)
        } else if eq_str(v, "UNKNOWN") {
            Ok(CalendarUserType::Unknown)
        } else {
            let t = token(v)?;
            if x_prefixed(v) {
                Ok(CalendarUserType::X(t))
            } else {
                Ok(CalendarUserType::Iana(t))
            }
        }
    }
}

impl Ical for CalendarUserType {
    open spec fn ical(&self) -> Seq<u8> {
        match self {
            CalendarUserType::Individual => "INDIVIDUAL".spec_bytes(),
            CalendarUserType::Group => "GROUP".spec_bytes(),
            CalendarUserType::Resource => "RESOURCE".spec_bytes(),
            CalendarUserType::Room => "ROOM".spec_bytes(),
            CalendarUserType::Unknown => "UNKNOWN".spec_bytes(),
            CalendarUserType::X(t) => t.bytes(),
            CalendarUserType::Iana(t) => t.bytes(),
        }
    }

    proof fn lemma_ical_valid(&self) {
        broadcast use vstd::utf8::encode_utf8_valid_utf8;

    }

    fn write_to(&self, out: &mut Vec<u8>) {
        match self {
            CalendarUserType::Individual => append_str(out, "INDIVIDUAL"),
            CalendarUserType::Group => append_str(out, "GROUP"),
            CalendarUserType::Resource => append_str(out, "RESOURCE"),
            CalendarUserType::Room => append_str(out, "ROOM"),
            CalendarUserType::Unknown => append_str(out, "UNKNOWN"),
            CalendarUserType::X(t) => t.write_raw(out),
            CalendarUserType::Iana(t) => t.write_raw(out),
        }
    }
}

/// The participation role of a calendar user (RFC 5545 §3.2.16).
#[derive(Debug)]
pub enum ParticipationRole {
    /// Chair of the calendar entity.
    Chair,
    /// Participation is required. Default.
    ReqParticipant,
    /// Participation is optional.
    OptParticipant,
    /// Copied for information purposes only.
    NonParticipant,
    /// A non-standard, `X-`-prefixed value.
    X(Text),
    /// A value registered with IANA that isn't one of the values above.
    Iana(Text),
}

impl ParticipationRole {
    /// The keyword value `v` spells, if it spells one.
    pub open spec fn keyword(v: Seq<u8>) -> Option<ParticipationRole> {
        if v == "CHAIR".spec_bytes() {
            Some(ParticipationRole::Chair)
        } else if v == "REQ-PARTICIPANT".spec_bytes() {
            Some(ParticipationRole::ReqParticipant)
        } else if v == "OPT-PARTICIPANT".spec_bytes() {
            Some(ParticipationRole::OptParticipant)
        } else if v == "NON-PARTICIPANT".spec_bytes() {
            Some(ParticipationRole::NonParticipant)
        } else {
            None
        }
    }

    /// A keyword is written back as itself: whatever keyword value `v`
    /// reads as is written as `v`.
    pub proof fn lemma_keyword_written(v: Seq<u8>, p: ParticipationRole)
        requires
            ParticipationRole::keyword(v) == Some(p),
        ensures
            p.ical() == v,
    {
    }

    /// Whether `v` parses: a keyword, or else any TEXT.
    pub open spec fn parses(v: Seq<u8>) -> bool {
        ParticipationRole::keyword(v) is Some || is_token(v)
    }

    /// Whether `p` is what `v` parses to: its keyword, else its text, as an
    /// x-name when it starts with `X-` and as an iana-token otherwise.
    pub open spec fn accepts(v: Seq<u8>, p: ParticipationRole) -> bool {
        match ParticipationRole::keyword(v) {
            Some(k) => p == k,
            None => {
                ||| (p matches ParticipationRole::X(t) && has_x_prefix(v) && t.bytes()
                    == unescape_text(v))
                ||| (p matches ParticipationRole::Iana(t) && !has_x_prefix(v) && t.bytes()
                    == unescape_text(v))
            },
        }
    }

    /// Parses the parameter value.
    pub fn try_from(v: &[u8]) -> (r: Result<ParticipationRole, ParamError>)
        ensures
            r is Ok <==> ParticipationRole::parses(v@),
            r matches Ok(p) ==> ParticipationRole::accepts(v@, p),
            r matches Err(e) ==> e is Value,
    {
        if eq_str(v, "CHAIR") {
            Ok(ParticipationRole::Chair)
        } else if eq_str(v, "REQ-PARTICIPANT") {
            Ok(ParticipationRole::ReqParticipant)
        } else if eq_str(v, "OPT-PARTICIPANT") {
            Ok(ParticipationRole::OptParticipant)
        } else if eq_str(v, "NON-PARTICIPANT") {
            Ok(ParticipationRole::NonParticipant)
        } else {
            let t = token(v)?;
            if x_prefixed(v) {
                Ok(ParticipationRole::X(t))
            } else {
                Ok(ParticipationRole::Iana(t))
            }
        }
    }
}

impl Ical for ParticipationRole {
    open spec fn ical(&self) -> Seq<u8> {
        match self {
            ParticipationRole::Chair => "CHAIR".spec_bytes(),
            ParticipationRole::ReqParticipant => "REQ-PARTICIPANT".spec_bytes(),
            ParticipationRole::OptParticipant => "OPT-PARTICIPANT".spec_bytes(),
            ParticipationRole::NonParticipant => "NON-PARTICIPANT".spec_bytes(),
            ParticipationRole::X(t) => t.bytes(),
            ParticipationRole::Iana(t) => t.bytes(),
        }
    }

    proof fn lemma_ical_valid(&self) {
        broadcast use vstd::utf8::encode_utf8_valid_utf8;

    }

    fn write_to(&self, out: &mut Vec<u8>) {
        match self {
            ParticipationRole::Chair => append_str(out, "CHAIR"),
            ParticipationRole::ReqParticipant => append_str(out, "REQ-PARTICIPANT"),
            ParticipationRole::OptParticipant => append_str(out, "OPT-PARTICIPANT"),
            ParticipationRole::NonParticipant => append_str(out, "NON-PARTICIPANT"),
            ParticipationRole::X(t) => t.write_raw(out),
            ParticipationRole::Iana(t) => t.write_raw(out),
        }
    }
}

/// Participation status of a `VEVENT` attendee (RFC 5545 §3.2.12).
#[derive(Debug)]
pub enum PartStatEvent {
    /// Event needs action. Default.
    NeedsAction,
    /// Event accepted.
    Accepted,
    /// Event declined.
    Declined,
    /// Event tentatively accepted.
    Tentative,
    /// Event delegated.
    Delegated,
    /// A non-standard, `X-`-prefixed value.
    X(Text),
    /// A value registered with IANA that isn't one of the values above.
    Iana(Text),
}

impl PartStatEvent {
    /// The keyword value `v` spells, if it spells one.
    pub open spec fn keyword(v: Seq<u8>) -> Option<PartStatEvent> {
        if v == "NEEDS-ACTION".spec_bytes() {
            Some(PartStatEvent::NeedsAction)
        } else if v == "ACCEPTED".spec_bytes() {
            Some(PartStatEvent::Accepted)
        } else if v == "DECLINED".spec_bytes() {
            Some(PartStatEvent::Declined)
        } else if v == "TENTATIVE".spec_bytes() {
            Some(PartStatEvent::Tentative)
        } else if v == "DELEGATED".spec_bytes() {
            Some(PartStatEvent::Delegated)
        } else {
            None
        }
    }

    /// A keyword is written back as itself: whatever keyword value `v`
    /// reads as is written as `v`.
    pub proof fn lemma_keyword_written(v: Seq<u8>, p: PartStatEvent)
        requires
            PartStatEvent::keyword(v) == Some(p),
        ensures
            p.ical() == v,
    {
    }

    /// Whether `v` parses: a keyword, or else any TEXT.
    pub open spec fn parses(v: Seq<u8>) -> bool {
        PartStatEvent::keyword(v) is Some || is_token(v)
    }

    /// Whether `p` is what `v` parses to: its keyword, else its text, as an
    /// x-name when it starts with `X-` and as an iana-token otherwise.
    pub open spec fn accepts(v: Seq<u8>, p: PartStatEvent) -> bool {
        match PartStatEvent::keyword(v) {
            Some(k) => p == k,
            None => {
                ||| (p matches PartStatEvent::X(t) && has_x_prefix(v) && t.bytes()
                    == unescape_text(v))
                ||| (p matches PartStatEvent::Iana(t) && !has_x_prefix(v) && t.bytes()
                    == unescape_text(v))
            },
        }
    }

    /// Parses the parameter value.
    pub fn try_from(v: &[u8]) -> (r: Result<PartStatEvent, ParamError>)
        ensures
            r is Ok <==> PartStatEvent::parses(v@),
            r matches Ok(p) ==> PartStatEvent::accepts(v@, p),
            r matches Err(e) ==> e is Value,
    {
        if eq_str(v, "NEEDS-ACTION") {
            Ok(PartStatEvent::NeedsAction)
        } else if eq_str(v, "ACCEPTED") {
            Ok(PartStatEvent::Accepted)
        } else if eq_str(v, "DECLINED") {
            Ok(PartStatEvent::Declined)
        } else if eq_str(v, "TENTATIVE") {
            Ok(PartStatEvent::Tentative)
        } else if eq_str(v, "DELEGATED") {
            Ok(PartStatEvent::Delegated)
        } else {
            let t = token(v)?;
            if x_prefixed(v) {
                Ok(PartStatEvent::X(t))
            } else {
                Ok(PartStatEvent::Iana(t))
            }
        }
    }
}

impl Ical for PartStatEvent {
    open spec fn ical(&self) -> Seq<u8> {
        match self {
            PartStatEvent::NeedsAction => "NEEDS-ACTION".spec_bytes(),
            PartStatEvent::Accepted => "ACCEPTED".spec_bytes(),
            PartStatEvent::Declined => "DECLINED".spec_bytes(),
            PartStatEvent::Tentative => "TENTATIVE".spec_bytes(),
            PartStatEvent::Delegated => "DELEGATED".spec_bytes(),
            PartStatEvent::X(t) => t.bytes(),
            PartStatEvent::Iana(t) => t.bytes(),
        }
    }

    proof fn lemma_ical_valid(&self) {
        broadcast use vstd::utf8::encode_utf8_valid_utf8;

    }

    fn write_to(&self, out: &mut Vec<u8>) {
        match self {
            PartStatEvent::NeedsAction => append_str(out, "NEEDS-ACTION"),
            PartStatEvent::Accepted => append_str(out, "ACCEPTED"),
            PartStatEvent::Declined => append_str(out, "DECLINED"),
            PartStatEvent::Tentative => append_str(out, "TENTATIVE"),
            PartStatEvent::Delegated => append_str(out, "DELEGATED"),
            PartStatEvent::X(t) => t.write_raw(out),
            PartStatEvent::Iana(t) => t.write_raw(out),
        }
    }
}

/// Participation status of a `VTODO` attendee (RFC 5545 §3.2.12).
#[derive(Debug)]
pub enum PartStatTodo {
    /// To-do needs action. Default.
    NeedsAction,
    /// To-do accepted.
    Accepted,
    /// To-do declined.
    Declined,
    /// To-do tentatively accepted.
    Tentative,
    /// To-do delegated.
    Delegated,
    /// To-do completed.
    Completed,
    /// To-do in process of being completed.
    InProcess,
    /// A non-standard, `X-`-prefixed value.
    X(Text),
    /// A value registered with IANA that isn't one of the values above.
    Iana(Text),
}

impl PartStatTodo {
    /// The keyword value `v` spells, if it spells one.
    pub open spec fn keyword(v: Seq<u8>) -> Option<PartStatTodo> {
        if v == "NEEDS-ACTION".spec_bytes() {
            Some(PartStatTodo::NeedsAction)
        } else if v == "ACCEPTED".spec_bytes() {
            Some(PartStatTodo::Accepted)
        } else if v == "DECLINED".spec_bytes() {
            Some(PartStatTodo::Declined)
        } else if v == "TENTATIVE".spec_bytes() {
            Some(PartStatTodo::Tentative)
        } else if v == "DELEGATED".spec_bytes() {
            Some(PartStatTodo::Delegated)
        } else if v == "COMPLETED".spec_bytes() {
            Some(PartStatTodo::Completed)
        } else if v == "IN-PROCESS".spec_bytes() {
            Some(PartStatTodo::InProcess)
        } else {
            None
        }
    }

    /// A keyword is written back as itself: whatever keyword value `v`
    /// reads as is written as `v`.
    pub proof fn lemma_keyword_written(v: Seq<u8>, p: PartStatTodo)
        requires
            PartStatTodo::keyword(v) == Some(p),
        ensures
            p.ical() == v,
    {
    }

    /// Whether `v` parses: a keyword, or else any TEXT.
    pub open spec fn parses(v: Seq<u8>) -> bool {
        PartStatTodo::keyword(v) is Some || is_token(v)
    }

    /// Whether `p` is what `v` parses to: its keyword, else its text, as an
    /// x-name when it starts with `X-` and as an iana-token otherwise.
    pub open spec fn accepts(v: Seq<u8>, p: PartStatTodo) -> bool {
        match PartStatTodo::keyword(v) {
            Some(k) => p == k,
            None => {
                ||| (p matches PartStatTodo::X(t) && has_x_prefix(v) && t.bytes()
                    == unescape_text(v))
                ||| (p matches PartStatTodo::Iana(t) && !has_x_prefix(v) && t.bytes()
                    == unescape_text(v))
            },
        }
    }

    /// Parses the parameter value.
    pub fn try_from(v: &[u8]) -> (r: Result<PartStatTodo, ParamError>)
        ensures
            r is Ok <==> PartStatTodo::parses(v@),
            r matches Ok(p) ==> PartStatTodo::accepts(v@, p),
            r matches Err(e) ==> e is Value,
    {
        if eq_str(v, "NEEDS-ACTION") {
            Ok(PartStatTodo::NeedsAction)
        } else if eq_str(v, "ACCEPTED") {
            Ok(PartStatTodo::Accepted)
        } else if eq_str(v, "DECLINED") {
            Ok(PartStatTodo::Declined)
        } else if eq_str(v, "TENTATIVE") {
            Ok(PartStatTodo::Tentative)
        } else if eq_str(v, "DELEGATED") {
            Ok(PartStatTodo::Delegated)
        } else if eq_str(v, "COMPLETED") {
            Ok(PartStatTodo::Completed)
        } else if eq_str(v, "IN-PROCESS") {
            Ok(PartStatTodo::InProcess)
        } else {
            let t = token(v)?;
            if x_prefixed(v) {
                Ok(PartStatTodo::X(t))
            } else {
                Ok(PartStatTodo::Iana(t))
            }
        }
    }
}

impl Ical for PartStatTodo {
    open spec fn ical(&self) -> Seq<u8> {
        match self {
            PartStatTodo::NeedsAction => "NEEDS-ACTION".spec_bytes(),
            PartStatTodo::Accepted => "ACCEPTED".spec_bytes(),
            PartStatTodo::Declined => "DECLINED".spec_bytes(),
            PartStatTodo::Tentative => "TENTATIVE".spec_bytes(),
            PartStatTodo::Delegated => "DELEGATED".spec_bytes(),
            PartStatTodo::Completed => "COMPLETED".spec_bytes(),
            PartStatTodo::InProcess => "IN-PROCESS".spec_bytes(),
            PartStatTodo::X(t) => t.bytes(),
            PartStatTodo::Iana(t) => t.bytes(),
        }
    }

    proof fn lemma_ical_valid(&self) {
        broadcast use vstd::utf8::encode_utf8_valid_utf8;

    }

    fn write_to(&self, out: &mut Vec<u8>) {
        match self {
            PartStatTodo::NeedsAction => append_str(out, "NEEDS-ACTION"),
            PartStatTodo::Accepted => append_str(out, "ACCEPTED"),
            PartStatTodo::Declined => append_str(out, "DECLINED"),
            PartStatTodo::Tentative => append_str(out, "TENTATIVE"),
            PartStatTodo::Delegated => append_str(out, "DELEGATED"),
            PartStatTodo::Completed => append_str(out, "COMPLETED"),
            PartStatTodo::InProcess => append_str(out, "IN-PROCESS"),
            PartStatTodo::X(t) => t.write_raw(out),
            PartStatTodo::Iana(t) => t.write_raw(out),
        }
    }
}

/// Participation status of a `VJOURNAL` attendee (RFC 5545 §3.2.12).
#[derive(Debug)]
pub enum PartStatJournal {
    /// Journal needs action. Default.
    NeedsAction,
    /// Journal accepted.
    Accepted,
    /// Journal declined.
    Declined,
    /// A non-standard, `X-`-prefixed value.
    X(Text),
    /// A value registered with IANA that isn't one of the values above.
    Iana(Text),
}

impl PartStatJournal {
    /// The keyword value `v` spells, if it spells one.
    pub open spec fn keyword(v: Seq<u8>) -> Option<PartStatJournal> {
        if v == "NEEDS-ACTION".spec_bytes() {
            Some(PartStatJournal::NeedsAction)
        } else if v == "ACCEPTED".spec_bytes() {
            Some(PartStatJournal::Accepted)
        } else if v == "DECLINED".spec_bytes() {
            Some(PartStatJournal::Declined)
        } else {
            None
        }
    }

    /// A keyword is written back as itself: whatever keyword value `v`
    /// reads as is written as `v`.
    pub proof fn lemma_keyword_written(v: Seq<u8>, p: PartStatJournal)
        requires
            PartStatJournal::keyword(v) == Some(p),
        ensures
            p.ical() == v,
    {
    }

    /// Whether `v` parses: a keyword, or else any TEXT.
    pub open spec fn parses(v: Seq<u8>) -> bool {
        PartStatJournal::keyword(v) is Some || is_token(v)
    }

    /// Whether `p` is what `v` parses to: its keyword, else its text, as an
    /// x-name when it starts with `X-` and as an iana-token otherwise.
    pub open spec fn accepts(v: Seq<u8>, p: PartStatJournal) -> bool {
        match PartStatJournal::keyword(v) {
            Some(k) => p == k,
            None => {
                ||| (p matches PartStatJournal::X(t) && has_x_prefix(v) && t.bytes()
                    == unescape_text(v))
                ||| (p matches PartStatJournal::Iana(t) && !has_x_prefix(v) && t.bytes()
                    == unescape_text(v))
            },
        }
    }

    /// Parses the parameter value.
    pub fn try_from(v: &[u8]) -> (r: Result<PartStatJournal, ParamError>)
        ensures
            r is Ok <==> PartStatJournal::parses(v@),
            r matches Ok(p) ==> PartStatJournal::accepts(v@, p),
            r matches Err(e) ==> e is Value,
    {
        if eq_str(v, "NEEDS-ACTION") {
            Ok(PartStatJournal::NeedsAction)
        } else if eq_str(v, "ACCEPTED") {
            Ok(PartStatJournal::Accepted)
        } else if eq_str(v, "DECLINED") {
            Ok(PartStatJournal::Declined)
        } else {
            let t = token(v)?;
            if x_prefixed(v) {
                Ok(PartStatJournal::X(t))
            } else {
                Ok(PartStatJournal::Iana(t))
            }
        }
    }
}

impl Ical for PartStatJournal {
    open spec fn ical(&self) -> Seq<u8> {
        match self {
            PartStatJournal::NeedsAction => "NEEDS-ACTION".spec_bytes(),
            PartStatJournal::Accepted => "ACCEPTED".spec_bytes(),
            PartStatJournal::Declined => "DECLINED".spec_bytes(),
            PartStatJournal::X(t) => t.bytes(),
            PartStatJournal::Iana(t) => t.bytes(),
        }
    }

    proof fn lemma_ical_valid(&self) {
        broadcast use vstd::utf8::encode_utf8_valid_utf8;

    }

    fn write_to(&self, out: &mut Vec<u8>) {
        match self {
            PartStatJournal::NeedsAction => append_str(out, "NEEDS-ACTION"),
            PartStatJournal::Accepted => append_str(out, "ACCEPTED"),
            PartStatJournal::Declined => append_str(out, "DECLINED"),
            PartStatJournal::X(t) => t.write_raw(out),
            PartStatJournal::Iana(t) => t.write_raw(out),
        }
    }
}

/// The type of hierarchical relationship a `RELATED-TO` names
/// (RFC 5545 §3.2.15).
#[derive(Debug)]
pub enum RelationshipType {
    /// The referenced component is a superior. Default.
    Parent,
    /// The referenced component is a subordinate.
    Child,
    /// The referenced component is a peer.
    Sibling,
    /// A non-standard, `X-`-prefixed value.
    X(Text),
    /// A value registered with IANA that isn't one of the values above.
    Iana(Text),
}

impl RelationshipType {
    /// The keyword value `v` spells, if it spells one.
    pub open spec fn keyword(v: Seq<u8>) -> Option<RelationshipType> {
        if v == "PARENT".spec_bytes() {
            Some(RelationshipType::Parent)
        } else if v == "CHILD".spec_bytes() {
            Some(RelationshipType::Child)
        } else if v == "SIBLING".spec_bytes() {
            Some(RelationshipType::Sibling)
        } else {
            None
        }
    }

    /// A keyword is written back as itself: whatever keyword value `v`
    /// reads as is written as `v`.
    pub proof fn lemma_keyword_written(v: Seq<u8>, p: RelationshipType)
        requires
            RelationshipType::keyword(v) == Some(p),
        ensures
            p.ical() == v,
    {
    }

    /// Whether `v` parses: a keyword, or else any TEXT.
    pub open spec fn parses(v: Seq<u8>) -> bool {
        RelationshipType::keyword(v) is Some || is_token(v)
    }

    /// Whether `p` is what `v` parses to: its keyword, else its text, as an
    /// x-name when it starts with `X-` and as an iana-token otherwise.
    pub open spec fn accepts(v: Seq<u8>, p: RelationshipType) -> bool {
        match RelationshipType::keyword(v) {
            Some(k) => p == k,
            None => {
                ||| (p matches RelationshipType::X(t) && has_x_prefix(v) && t.bytes()
                    == unescape_text(v))
                ||| (p matches RelationshipType::Iana(t) && !has_x_prefix(v) && t.bytes()
                    == unescape_text(v))
            },
        }
    }

    /// Parses the parameter value.
    pub fn try_from(v: &[u8]) -> (r: Result<RelationshipType, ParamError>)
        ensures
            r is Ok <==> RelationshipType::parses(v@),
            r matches Ok(p) ==> RelationshipType::accepts(v@, p),
            r matches Err(e) ==> e is Value,
    {
        if eq_str(v, "PARENT") {
            Ok(RelationshipType::Parent)
        } else if eq_str(v, "CHILD") {
            Ok(RelationshipType::Child)
        } else if eq_str(v, "SIBLING") {
            Ok(RelationshipType::Sibling)
        } else {
            let t = token(v)?;
            if x_prefixed(v) {
                Ok(RelationshipType::X(t))
            } else {
                Ok(RelationshipType::Iana(t))
            }
        }
    }
}

impl Ical for RelationshipType {
    open spec fn ical(&self) -> Seq<u8> {
        match self {
            RelationshipType::Parent => "PARENT".spec_bytes(),
            RelationshipType::Child => "CHILD".spec_bytes(),
            RelationshipType::Sibling => "SIBLING".spec_bytes(),
            RelationshipType::X(t) => t.bytes(),
            RelationshipType::Iana(t) => t.bytes(),
        }
    }

    proof fn lemma_ical_valid(&self) {
        broadcast use vstd::utf8::encode_utf8_valid_utf8;

    }

    fn write_to(&self, out: &mut Vec<u8>) {
        match self {
            RelationshipType::Parent => append_str(out, "PARENT"),
            RelationshipType::Child => append_str(out, "CHILD"),
            RelationshipType::Sibling => append_str(out, "SIBLING"),
            RelationshipType::X(t) => t.write_raw(out),
            RelationshipType::Iana(t) => t.write_raw(out),
        }
    }
}

/// Whether an alarm trigger is relative to the start or the end of its
/// component (RFC 5545 §3.2.14).
#[derive(Debug)]
pub enum AlarmTriggerRelationship {
    /// Relative to the start. Default.
    Start,
    /// Relative to the end.
    End,
}

impl AlarmTriggerRelationship {
    /// The keyword value `v` spells, if it spells one.
    pub open spec fn keyword(v: Seq<u8>) -> Option<AlarmTriggerRelationship> {
        if v == "START".spec_bytes() {
            Some(AlarmTriggerRelationship::Start)
        } else if v == "END".spec_bytes() {
            Some(AlarmTriggerRelationship::End)
        } else {
            None
        }
    }

    /// A keyword is written back as itself: whatever keyword value `v`
    /// reads as is written as `v`.
    pub proof fn lemma_keyword_written(v: Seq<u8>, p: AlarmTriggerRelationship)
        requires
            AlarmTriggerRelationship::keyword(v) == Some(p),
        ensures
            p.ical() == v,
    {
    }

    /// Whether `v` parses: only the keywords do.
    pub open spec fn parses(v: Seq<u8>) -> bool {
        AlarmTriggerRelationship::keyword(v) is Some
    }

    /// Whether `p` is what `v` parses to.
    pub open spec fn accepts(v: Seq<u8>, p: AlarmTriggerRelationship) -> bool {
        AlarmTriggerRelationship::keyword(v) == Some(p)
    }

    /// Parses the parameter value.
    pub fn try_from(v: &[u8]) -> (r: Result<AlarmTriggerRelationship, ParamError>)
        ensures
            r is Ok <==> AlarmTriggerRelationship::parses(v@),
            r matches Ok(p) ==> AlarmTriggerRelationship::accepts(v@, p),
            r matches Err(e) ==> e is Malformed,
    {
        if eq_str(v, "START") {
            Ok(AlarmTriggerRelationship::Start)
        } else if eq_str(v, "END") {
            Ok(AlarmTriggerRelationship::End)
        } else {
            Err(malformed("START or END", v))
        }
    }
}

impl Ical for AlarmTriggerRelationship {
    open spec fn ical(&self) -> Seq<u8> {
        match self {
            AlarmTriggerRelationship::Start => "START".spec_bytes(),
            AlarmTriggerRelationship::End => "END".spec_bytes(),
        }
    }

    proof fn lemma_ical_valid(&self) {
        broadcast use vstd::utf8::encode_utf8_valid_utf8;

    }

    fn write_to(&self, out: &mut Vec<u8>) {
        match self {
            AlarmTriggerRelationship::Start => append_str(out, "START"),
            AlarmTriggerRelationship::End => append_str(out, "END"),
        }
    }
}

/// The effective range of a recurrence instance (RFC 5545 §3.2.13).
#[derive(Debug)]
pub enum RecurrenceIdentifierRange {
    /// This instance and all later ones.
    ThisAndFuture,
}

impl RecurrenceIdentifierRange {
    /// The keyword value `v` spells, if it spells one.
    pub open spec fn keyword(v: Seq<u8>) -> Option<RecurrenceIdentifierRange> {
        if v == "THISANDFUTURE".spec_bytes() {
            Some(RecurrenceIdentifierRange::ThisAndFuture)
        } else {
            None
        }
    }

    /// A keyword is written back as itself: whatever keyword value `v`
    /// reads as is written as `v`.
    pub proof fn lemma_keyword_written(v: Seq<u8>, p: RecurrenceIdentifierRange)
        requires
            RecurrenceIdentifierRange::keyword(v) == Some(p),
        ensures
            p.ical() == v,
    {
    }

    /// Whether `v` parses: only the keywords do.
    pub open spec fn parses(v: Seq<u8>) -> bool {
        RecurrenceIdentifierRange::keyword(v) is Some
    }

    /// Whether `p` is what `v` parses to.
    pub open spec fn accepts(v: Seq<u8>, p: RecurrenceIdentifierRange) -> bool {
        RecurrenceIdentifierRange::keyword(v) == Some(p)
    }

    /// Parses the parameter value.
    pub fn try_from(v: &[u8]) -> (r: Result<RecurrenceIdentifierRange, ParamError>)
        ensures
            r is Ok <==> RecurrenceIdentifierRange::parses(v@),
            r matches Ok(p) ==> RecurrenceIdentifierRange::accepts(v@, p),
            r matches Err(e) ==> e is Malformed,
    {
        if eq_str(v, "THISANDFUTURE") {
            Ok(RecurrenceIdentifierRange::ThisAndFuture)
        } else {
            Err(malformed("THISANDFUTURE", v))
        }
    }
}

impl Ical for RecurrenceIdentifierRange {
    open spec fn ical(&self) -> Seq<u8> {
        match self {
            RecurrenceIdentifierRange::ThisAndFuture => "THISANDFUTURE".spec_bytes(),
        }
    }

    proof fn lemma_ical_valid(&self) {
        broadcast use vstd::utf8::encode_utf8_valid_utf8;

    }

    fn write_to(&self, out: &mut Vec<u8>) {
        match self {
            RecurrenceIdentifierRange::ThisAndFuture => append_str(out, "THISANDFUTURE"),
        }
    }
}

/// One of the ways an `IMAGE` can be displayed (RFC 7986 §6.1).
#[derive(Debug)]
pub enum ImageDisplayValue {
    /// A small image, such as an icon.
    Badge,
    /// A full image replacement for the text.
    Graphic,
    /// A full-size image.
    Fullsize,
    /// A thumbnail of the full image.
    Thumbnail,
    /// A non-standard, `X-`-prefixed value.
    X(Text),
    /// A value registered with IANA that isn't one of the values above.
    Iana(Text),
}

impl ImageDisplayValue {
    /// The keyword value `v` spells, if it spells one.
    pub open spec fn keyword(v: Seq<u8>) -> Option<ImageDisplayValue> {
        if v == "BADGE".spec_bytes() {
            Some(ImageDisplayValue::Badge)
        } else if v == "GRAPHIC".spec_bytes() {
            Some(ImageDisplayValue::Graphic)
        } else if v == "FULLSIZE".spec_bytes() {
            Some(ImageDisplayValue::Fullsize)
        } else if v == "THUMBNAIL".spec_bytes() {
            Some(ImageDisplayValue::Thumbnail)
        } else {
            None
        }
    }

    /// A keyword is written back as itself: whatever keyword value `v`
    /// reads as is written as `v`.
    pub proof fn lemma_keyword_written(v: Seq<u8>, p: ImageDisplayValue)
        requires
            ImageDisplayValue::keyword(v) == Some(p),
        ensures
            p.ical() == v,
    {
    }

    /// Whether `v` parses: a keyword, or else any TEXT.
    pub open spec fn parses(v: Seq<u8>) -> bool {
        ImageDisplayValue::keyword(v) is Some || is_token(v)
    }

    /// Whether `p` is what `v` parses to: its keyword, else its text, as an
    /// x-name when it starts with `X-` and as an iana-token otherwise.
    pub open spec fn accepts(v: Seq<u8>, p: ImageDisplayValue) -> bool {
        match ImageDisplayValue::keyword(v) {
            Some(k) => p == k,
            None => {
                ||| (p matches ImageDisplayValue::X(t) && has_x_prefix(v) && t.bytes()
                    == unescape_text(v))
                ||| (p matches ImageDisplayValue::Iana(t) && !has_x_prefix(v) && t.bytes()
                    == unescape_text(v))
            },
        }
    }

    /// Parses the parameter value.
    pub fn try_from(v: &[u8]) -> (r: Result<ImageDisplayValue, ParamError>)
        ensures
            r is Ok <==> ImageDisplayValue::parses(v@),
            r matches Ok(p) ==> ImageDisplayValue::accepts(v@, p),
            r matches Err(e) ==> e is Value,
    {
        if eq_str(v, "BADGE") {
            Ok(ImageDisplayValue::Badge)
        } else if eq_str(v, "GRAPHIC") {
            Ok(ImageDisplayValue::Graphic)
        } else if eq_str(v, "FULLSIZE") {
            Ok(ImageDisplayValue::Fullsize)
        } else if eq_str(v, "THUMBNAIL") {
            Ok(ImageDisplayValue::Thumbnail)
        } else {
            let t = token(v)?;
            if x_prefixed(v) {
                Ok(ImageDisplayValue::X(t))
            } else {
                Ok(ImageDisplayValue::Iana(t))
            }
        }
    }
}

impl Ical for ImageDisplayValue {
    open spec fn ical(&self) -> Seq<u8> {
        match self {
            ImageDisplayValue::Badge => "BADGE".spec_bytes(),
            ImageDisplayValue::Graphic => "GRAPHIC".spec_bytes(),
            ImageDisplayValue::Fullsize => "FULLSIZE".spec_bytes(),
            ImageDisplayValue::Thumbnail => "THUMBNAIL".spec_bytes(),
            ImageDisplayValue::X(t) => t.bytes(),
            ImageDisplayValue::Iana(t) => t.bytes(),
        }
    }

    proof fn lemma_ical_valid(&self) {
        broadcast use vstd::utf8::encode_utf8_valid_utf8;

    }

    fn write_to(&self, out: &mut Vec<u8>) {
        match self {
            ImageDisplayValue::Badge => append_str(out, "BADGE"),
            ImageDisplayValue::Graphic => append_str(out, "GRAPHIC"),
            ImageDisplayValue::Fullsize => append_str(out, "FULLSIZE"),
            ImageDisplayValue::Thumbnail => append_str(out, "THUMBNAIL"),
            ImageDisplayValue::X(t) => t.write_raw(out),
            ImageDisplayValue::Iana(t) => t.write_raw(out),
        }
    }
}

/// One of the features a `CONFERENCE` offers (RFC 7986 §6.3).
#[derive(Debug)]
pub enum FeatureValue {
    /// Audio capability.
    Audio,
    /// Chat or instant messaging.
    Chat,
    /// A blog or atom feed.
    Feed,
    /// Moderator dial-in code.
    Moderator,
    /// A phone conference.
    Phone,
    /// Screen sharing.
    Screen,
    /// Video capability.
    Video,
    /// A non-standard, `X-`-prefixed value.
    X(Text),
    /// A value registered with IANA that isn't one of the values above.
    Iana(Text),
}

impl FeatureValue {
    /// The keyword value `v` spells, if it spells one.
    pub open spec fn keyword(v: Seq<u8>) -> Option<FeatureValue> {
        if v == "AUDIO".spec_bytes() {
            Some(FeatureValue::Audio)
        } else if v == "CHAT".spec_bytes() {
            Some(FeatureValue::Chat)
        } else if v == "FEED".spec_bytes() {
            Some(FeatureValue::Feed)
        } else if v == "MODERATOR".spec_bytes() {
            Some(FeatureValue::Moderator)
        } else if v == "PHONE".spec_bytes() {
            Some(FeatureValue::Phone)
        } else if v == "SCREEN".spec_bytes() {
            Some(FeatureValue::Screen)
        } else if v == "VIDEO".spec_bytes() {
            Some(FeatureValue::Video)
        } else {
            None
        }
    }

    /// A keyword is written back as itself: whatever keyword value `v`
    /// reads as is written as `v`.
    pub proof fn lemma_keyword_written(v: Seq<u8>, p: FeatureValue)
        requires
            FeatureValue::keyword(v) == Some(p),
        ensures
            p.ical() == v,
    {
    }

    /// Whether `v` parses: a keyword, or else any TEXT.
    pub open spec fn parses(v: Seq<u8>) -> bool {
        FeatureValue::keyword(v) is Some || is_token(v)
    }

    /// Whether `p` is what `v` parses to: its keyword, else its text, as an
    /// x-name when it starts with `X-` and as an iana-token otherwise.
    pub open spec fn accepts(v: Seq<u8>, p: FeatureValue) -> bool {
        match FeatureValue::keyword(v) {
            Some(k) => p == k,
            None => {
                ||| (p matches FeatureValue::X(t) && has_x_prefix(v) && t.bytes()
                    == unescape_text(v))
                ||| (p matches FeatureValue::Iana(t) && !has_x_prefix(v) && t.bytes()
                    == unescape_text(v))
            },
        }
    }

    /// Parses the parameter value.
    pub fn try_from(v: &[u8]) -> (r: Result<FeatureValue, ParamError>)
        ensures
            r is Ok <==> FeatureValue::parses(v@),
            r matches Ok(p) ==> FeatureValue::accepts(v@, p),
            r matches Err(e) ==> e is Value,
    {
        if eq_str(v, "AUDIO") {
            Ok(FeatureValue::Audio)
        } else if eq_str(v, "CHAT") {
            Ok(FeatureValue::Chat)
        } else if eq_str(v, "FEED") {
            Ok(FeatureValue::Feed)
        } else if eq_str(v, "MODERATOR") {
            Ok(FeatureValue::Moderator)
        } else if eq_str(v, "PHONE") {
            Ok(FeatureValue::Phone)
        } else if eq_str(v, "SCREEN") {
            Ok(FeatureValue::Screen)
        } else if eq_str(v, "VIDEO") {
            Ok(FeatureValue::Video)
        } else {
            let t = token(v)?;
            if x_prefixed(v) {
                Ok(FeatureValue::X(t))
            } else {
                Ok(FeatureValue::Iana(t))
            }
        }
    }
}

impl Ical for FeatureValue {
    open spec fn ical(&self) -> Seq<u8> {
        match self {
            FeatureValue::Audio => "AUDIO".spec_bytes(),
            FeatureValue::Chat => "CHAT".spec_bytes(),
            FeatureValue::Feed => "FEED".spec_bytes(),
            FeatureValue::Moderator => "MODERATOR".spec_bytes(),
            FeatureValue::Phone => "PHONE".spec_bytes(),
            FeatureValue::Screen => "SCREEN".spec_bytes(),
            FeatureValue::Video => "VIDEO".spec_bytes(),
            FeatureValue::X(t) => t.bytes(),
            FeatureValue::Iana(t) => t.bytes(),
        }
    }

    proof fn lemma_ical_valid(&self) {
        broadcast use vstd::utf8::encode_utf8_valid_utf8;

    }

    fn write_to(&self, out: &mut Vec<u8>) {
        match self {
            FeatureValue::Audio => append_str(out, "AUDIO"),
            FeatureValue::Chat => append_str(out, "CHAT"),
            FeatureValue::Feed => append_str(out, "FEED"),
            FeatureValue::Moderator => append_str(out, "MODERATOR"),
            FeatureValue::Phone => append_str(out, "PHONE"),
            FeatureValue::Screen => append_str(out, "SCREEN"),
            FeatureValue::Video => append_str(out, "VIDEO"),
            FeatureValue::X(t) => t.write_raw(out),
            FeatureValue::Iana(t) => t.write_raw(out),
        }
    }
}
// ---------------------------------------------------------------------
// How parameter values are written.

/// The bytes that force a parameter's text value into a quoted-string.
pub open spec fn is_param_delimiter(b: u8) -> bool {
    b == COLON || b == SEMICOLON || b == COMMA
}

/// Whether the text `v` holds a `:`, `;` or `,`.
pub open spec fn needs_quotes(v: Seq<u8>) -> bool {
    exists|i: int| 0 <= i < v.len() && is_param_delimiter(#[trigger] v[i])
}

/// A text parameter value as written: quoted when it holds a delimiter.
pub open spec fn param_text(v: Seq<u8>) -> Seq<u8> {
    if needs_quotes(v) {
        quote(v)
    } else {
        v
    }
}

fn has_delimiter(v: &[u8]) -> (r: bool)
    ensures
        r == needs_quotes(v@),
{
    let mut i: usize = 0;
    while i < v.len()
        invariant
            i <= v.len(),
            forall|j: int| 0 <= j < i ==> !is_param_delimiter(#[trigger] v@[j]),
        decreases v.len() - i,
    {
        let b = v[i];
        if b == COLON || b == SEMICOLON || b == COMMA {
            assert(is_param_delimiter(v@[i as int]));
            return true;
        }
        i += 1;
    }
    false
}

fn write_param_text(v: &[u8], out: &mut Vec<u8>)
    ensures
        final(out)@ == old(out)@ + param_text(v@),
{
    if has_delimiter(v) {
        out.push(DQUOTE);
        append(out, v);
        out.push(DQUOTE);
        assert(out@ =~= old(out)@ + quote(v@));
    } else {
        append(out, v);
    }
}

proof fn lemma_param_text_valid(v: Seq<u8>)
    requires
        valid_utf8(v),
    ensures
        valid_utf8(param_text(v)),
{
    lemma_quote_valid(v);
}

// ---------------------------------------------------------------------
// Lists of calendar user addresses.

/// Whether `p` is a quoted-string holding a calendar user address.
pub open spec fn is_quoted_address(p: Seq<u8>) -> bool {
    is_quoted(p) && is_uri(unquoted(p)) && valid_utf8(unquoted(p))
}

/// Whether every `,`-separated piece of `v` is a quoted address.
pub open spec fn is_address_list(v: Seq<u8>) -> bool {
    forall|i: int|
        0 <= i < pieces(v, COMMA).len() ==> is_quoted_address(#[trigger] pieces(v, COMMA)[i])
}

/// The addresses a list names: its pieces, unquoted.
pub open spec fn addresses_of(v: Seq<u8>) -> Seq<Seq<u8>> {
    pieces(v, COMMA).map_values(|p: Seq<u8>| unquoted(p))
}

/// The bytes of each address.
pub open spec fn address_bytes(a: Seq<CalendarUserAddress>) -> Seq<Seq<u8>> {
    a.map_values(|x: CalendarUserAddress| x.bytes())
}

/// A list of addresses as written: each quoted, `,` between them.
pub open spec fn address_list_text(bs: Seq<Seq<u8>>) -> Seq<u8> {
    joined(bs.map_values(|b: Seq<u8>| quote(b)), COMMA)
}

fn parse_addresses(v: &[u8]) -> (r: Result<Vec<CalendarUserAddress>, ParamError>)
    ensures
        r is Ok <==> is_address_list(v@),
        r matches Ok(a) ==> address_bytes(a@) == addresses_of(v@),
{
    let ps = split_all(v, COMMA);
    let ghost all = pieces(v@, COMMA);
    let mut out: Vec<CalendarUserAddress> = Vec::new();
    let mut i: usize = 0;
    while i < ps.len()
        invariant
            i <= ps.len(),
            vec_views(ps@) == all,
            all == pieces(v@, COMMA),
            forall|j: int| 0 <= j < i ==> is_quoted_address(#[trigger] all[j]),
            address_bytes(out@) == addresses_of(v@).take(i as int),
        decreases ps.len() - i,
    {
        assert(ps@[i as int]@ == all[i as int]);
        let inner = match quoted(ps[i].as_slice()) {
            Ok(inner) => inner,
            Err(e) => {
                assert(!is_quoted_address(all[i as int]));
                return Err(e);
            },
        };
        let a = match CalendarUserAddress::try_from(inner.as_slice()) {
            Ok(a) => a,
            Err(e) => {
                assert(!is_quoted_address(all[i as int]));
                return Err(ParamError::Value(e));
            },
        };
        let ghost before = out@;
        out.push(a);
        assert(address_bytes(out@) =~= address_bytes(before).push(a.bytes()));
        assert(addresses_of(v@).take(i + 1) =~= addresses_of(v@).take(i as int).push(
            unquoted(all[i as int]),
        ));
        i += 1;
    }
    assert(addresses_of(v@).take(ps.len() as int) =~= addresses_of(v@));
    Ok(out)
}

fn write_addresses(a: &[CalendarUserAddress], out: &mut Vec<u8>)
    ensures
        final(out)@ == old(out)@ + address_list_text(address_bytes(a@)),
{
    let mut i: usize = 0;
    assert(address_bytes(a@.take(0)).map_values(|b: Seq<u8>| quote(b)) =~= seq![]);
    assert(out@ =~= old(out)@ + address_list_text(address_bytes(a@.take(0))));
    while i < a.len()
        invariant
            i <= a.len(),
            out@ == old(out)@ + address_list_text(address_bytes(a@.take(i as int))),
        decreases a.len() - i,
    {
        let ghost prev = address_bytes(a@.take(i as int)).map_values(|b: Seq<u8>| quote(b));
        let ghost before = out@;
        if i > 0 {
            out.push(COMMA);
        }
        out.push(DQUOTE);
        a[i].write_to(out);
        out.push(DQUOTE);
        proof {
            let x = a@[i as int].bytes();
            assert(address_bytes(a@.take(i + 1)).map_values(|b: Seq<u8>| quote(b)) =~= prev.push(
                quote(x),
            ));
            lemma_joined_push(prev, quote(x), COMMA);
            if i > 0 {
                assert(out@ =~= before + seq![COMMA] + quote(x));
            } else {
                assert(out@ =~= before + quote(x));
            }
        }
        i += 1;
    }
    assert(a@.take(a.len() as int) =~= a@);
}

proof fn lemma_address_list_valid(a: Seq<CalendarUserAddress>)
    ensures
        valid_utf8(address_list_text(address_bytes(a))),
{
    let qs = address_bytes(a).map_values(|b: Seq<u8>| quote(b));
    assert forall|i: int| 0 <= i < qs.len() implies valid_utf8(#[trigger] qs[i]) by {
        a[i].lemma_bytes_valid();
        lemma_quote_valid(a[i].bytes());
    }
    lemma_joined_valid(qs, COMMA);
}

// ---------------------------------------------------------------------
// Parameters holding one value.

/// An alternate representation of a textual property value: a URI, which
/// the parameter carries in a quoted-string (RFC 5545 §3.2.1).
#[derive(Debug)]
pub struct Altrep(Uri);

impl View for Altrep {
    type V = Seq<char>;

    closed spec fn view(&self) -> Seq<char> {
        self.0@
    }
}

impl Altrep {
    /// Whether `v` parses.
    pub open spec fn parses(v: Seq<u8>) -> bool {
        is_quoted(v) && is_uri(unquoted(v)) && valid_utf8(unquoted(v))
    }

    /// Whether `x` is what `v` parses to.
    pub open spec fn accepts(v: Seq<u8>, x: Altrep) -> bool {
        encode_utf8(x@) == unquoted(v)
    }

    /// Parses a quoted-string holding a URI.
    pub fn try_from(v: &[u8]) -> (r: Result<Altrep, ParamError>)
        ensures
            r is Ok <==> Altrep::parses(v@),
            r matches Ok(x) ==> Altrep::accepts(v@, x),
            !is_quoted(v@) ==> r matches Err(ParamError::QuotedString),
    {
        let inner = quoted(v)?;
        match Uri::try_from(inner.as_slice()) {
            Ok(u) => Ok(Altrep(u)),
            Err(e) => Err(ParamError::Value(e)),
        }
    }

    /// An `ALTREP` parameter for an already-parsed URI.
    pub fn new(uri: Uri) -> (r: Altrep)
        ensures
            r@ == uri@,
    {
        Altrep(uri)
    }

    /// The URI.
    pub fn value(&self) -> (r: &Uri)
        ensures
            r@ == self@,
    {
        &self.0
    }
}

impl Ical for Altrep {
    open spec fn ical(&self) -> Seq<u8> {
        quote(encode_utf8(self@))
    }

    proof fn lemma_ical_valid(&self) {
        encode_utf8_valid_utf8(self@);
        lemma_quote_valid(encode_utf8(self@));
    }

    fn write_to(&self, out: &mut Vec<u8>) {
        out.push(DQUOTE);
        self.0.write_to(out);
        out.push(DQUOTE);
        assert(out@ =~= old(out)@ + quote(encode_utf8(self@)));
    }
}

/// A reference to a directory entry for the calendar user: a URI in a
/// quoted-string (RFC 5545 §3.2.6).
#[derive(Debug)]
pub struct DirectoryEntryReference(Uri);

impl View for DirectoryEntryReference {
    type V = Seq<char>;

    closed spec fn view(&self) -> Seq<char> {
        self.0@
    }
}

impl DirectoryEntryReference {
    /// Whether `v` parses.
    pub open spec fn parses(v: Seq<u8>) -> bool {
        is_quoted(v) && is_uri(unquoted(v)) && valid_utf8(unquoted(v))
    }

    /// Whether `x` is what `v` parses to.
    pub open spec fn accepts(v: Seq<u8>, x: DirectoryEntryReference) -> bool {
        encode_utf8(x@) == unquoted(v)
    }

    /// Parses a quoted-string holding a URI.
    pub fn try_from(v: &[u8]) -> (r: Result<DirectoryEntryReference, ParamError>)
        ensures
            r is Ok <==> DirectoryEntryReference::parses(v@),
            r matches Ok(x) ==> DirectoryEntryReference::accepts(v@, x),
            !is_quoted(v@) ==> r matches Err(ParamError::QuotedString),
    {
        let inner = quoted(v)?;
        match Uri::try_from(inner.as_slice()) {
            Ok(u) => Ok(DirectoryEntryReference(u)),
            Err(e) => Err(ParamError::Value(e)),
        }
    }

    /// A `DIR` parameter for an already-parsed URI.
    pub fn new(uri: Uri) -> (r: DirectoryEntryReference)
        ensures
            r@ == uri@,
    {
        DirectoryEntryReference(uri)
    }

    /// The URI.
    pub fn value(&self) -> (r: &Uri)
        ensures
            r@ == self@,
    {
        &self.0
    }
}

impl Ical for DirectoryEntryReference {
    open spec fn ical(&self) -> Seq<u8> {
        quote(encode_utf8(self@))
    }

    proof fn lemma_ical_valid(&self) {
        encode_utf8_valid_utf8(self@);
        lemma_quote_valid(encode_utf8(self@));
    }

    fn write_to(&self, out: &mut Vec<u8>) {
        out.push(DQUOTE);
        self.0.write_to(out);
        out.push(DQUOTE);
        assert(out@ =~= old(out)@ + quote(encode_utf8(self@)));
    }
}

/// The common name of a calendar user, as text; quoting is optional
/// (RFC 5545 §3.2.2).
#[derive(Debug)]
pub struct CommonName(Text);

impl View for CommonName {
    type V = Seq<char>;

    closed spec fn view(&self) -> Seq<char> {
        self.0@
    }
}

impl CommonName {
    /// Whether `v` parses.
    pub open spec fn parses(v: Seq<u8>) -> bool {
        is_token(maybe_unquoted(v))
    }

    /// Whether `x` is what `v` parses to.
    pub open spec fn accepts(v: Seq<u8>, x: CommonName) -> bool {
        encode_utf8(x@) == unescape_text(maybe_unquoted(v))
    }

    /// Parses the text, first taking off a DQUOTE pair if there is one.
    pub fn try_from(v: &[u8]) -> (r: Result<CommonName, ParamError>)
        ensures
            r is Ok <==> CommonName::parses(v@),
            r matches Ok(x) ==> CommonName::accepts(v@, x),
    {
        let inner = maybe_quoted(v);
        Ok(CommonName(token(inner.as_slice())?))
    }

    /// A `CN` parameter for already-typed text.
    pub fn new(name: Text) -> (r: CommonName)
        ensures
            r@ == name@,
    {
        CommonName(name)
    }

    /// The name.
    pub fn value(&self) -> (r: &Text)
        ensures
            r@ == self@,
    {
        &self.0
    }
}

impl Ical for CommonName {
    open spec fn ical(&self) -> Seq<u8> {
        param_text(encode_utf8(self@))
    }

    proof fn lemma_ical_valid(&self) {
        encode_utf8_valid_utf8(self@);
        lemma_param_text_valid(encode_utf8(self@));
    }

    fn write_to(&self, out: &mut Vec<u8>) {
        write_param_text(self.0.as_str().as_bytes(), out)
    }
}

/// A label for a conference or similar, as text (RFC 7986 §6.4).
#[derive(Debug)]
pub struct Label(Text);

impl View for Label {
    type V = Seq<char>;

    closed spec fn view(&self) -> Seq<char> {
        self.0@
    }
}

impl Label {
    /// Whether `v` parses.
    pub open spec fn parses(v: Seq<u8>) -> bool {
        is_token(maybe_unquoted(v))
    }

    /// Whether `x` is what `v` parses to.
    pub open spec fn accepts(v: Seq<u8>, x: Label) -> bool {
        encode_utf8(x@) == unescape_text(maybe_unquoted(v))
    }

    /// Parses the text, first taking off a DQUOTE pair if there is one.
    pub fn try_from(v: &[u8]) -> (r: Result<Label, ParamError>)
        ensures
            r is Ok <==> Label::parses(v@),
            r matches Ok(x) ==> Label::accepts(v@, x),
    {
        let inner = maybe_quoted(v);
        Ok(Label(token(inner.as_slice())?))
    }

    /// A `LABEL` parameter for already-typed text.
    pub fn new(value: Text) -> (r: Label)
        ensures
            r@ == value@,
    {
        Label(value)
    }

    /// The label.
    pub fn value(&self) -> (r: &Text)
        ensures
            r@ == self@,
    {
        &self.0
    }
}

impl Ical for Label {
    open spec fn ical(&self) -> Seq<u8> {
        encode_utf8(self@)
    }

    proof fn lemma_ical_valid(&self) {
        encode_utf8_valid_utf8(self@);
    }

    fn write_to(&self, out: &mut Vec<u8>) {
        self.0.write_raw(out)
    }
}

/// The identifier of a time zone definition, as text (RFC 5545 §3.2.19).
/// Any text is accepted, whether or not it names a zone this crate knows.
#[derive(Debug)]
pub struct TimeZoneIdentifier(Text);

impl View for TimeZoneIdentifier {
    type V = Seq<char>;

    closed spec fn view(&self) -> Seq<char> {
        self.0@
    }
}

impl TimeZoneIdentifier {
    /// Whether `v` parses.
    pub open spec fn parses(v: Seq<u8>) -> bool {
        is_token(maybe_unquoted(v))
    }

    /// Whether `x` is what `v` parses to.
    pub open spec fn accepts(v: Seq<u8>, x: TimeZoneIdentifier) -> bool {
        encode_utf8(x@) == unescape_text(maybe_unquoted(v))
    }

    /// Parses the text, first taking off a DQUOTE pair if there is one.
    pub fn try_from(v: &[u8]) -> (r: Result<TimeZoneIdentifier, ParamError>)
        ensures
            r is Ok <==> TimeZoneIdentifier::parses(v@),
            r matches Ok(x) ==> TimeZoneIdentifier::accepts(v@, x),
    {
        let inner = maybe_quoted(v);
        Ok(TimeZoneIdentifier(token(inner.as_slice())?))
    }

    /// The identifier.
    pub fn as_str(&self) -> (r: &str)
        ensures
            r@ == self@,
    {
        self.0.as_str()
    }

    /// The identifier of a zone of the chrono-tz database: its name.
    pub fn new(tz: chrono_tz::Tz) -> (r: TimeZoneIdentifier)
        ensures
            zone_known(r@),
    {
        TimeZoneIdentifier(Text::from_str(zone_name(tz)))
    }

    /// The zone of the chrono-tz database the identifier names, if it
    /// names one exactly; any other text (an offset, a display name, a
    /// globally unique identifier) gives `None`.
    pub fn resolve(&self) -> (r: Option<chrono_tz::Tz>)
        ensures
            r is Some <==> zone_known(self@),
    {
        parse_zone(self.0.as_str())
    }
}

impl Ical for TimeZoneIdentifier {
    open spec fn ical(&self) -> Seq<u8> {
        escape_text(encode_utf8(self@))
    }

    proof fn lemma_ical_valid(&self) {
        encode_utf8_valid_utf8(self@);
        crate::values::lemma_escape_valid(encode_utf8(self@));
    }

    fn write_to(&self, out: &mut Vec<u8>) {
        self.0.write_escaped(out)
    }
}

/// The media type of a referenced object (RFC 5545 §3.2.8).
#[derive(Debug)]
pub struct Fmttype(MediaType);

impl View for Fmttype {
    type V = Seq<u8>;

    closed spec fn view(&self) -> Seq<u8> {
        self.0.bytes()
    }
}

impl Fmttype {
    /// Whether `v` parses.
    pub open spec fn parses(v: Seq<u8>) -> bool {
        is_media_type(v) && valid_utf8(v.take(first_byte(v, SLASH)->0)) && valid_utf8(
            v.skip(first_byte(v, SLASH)->0 + 1),
        )
    }

    /// Whether `x` is what `v` parses to.
    pub open spec fn accepts(v: Seq<u8>, x: Fmttype) -> bool {
        x@ == v
    }

    /// Parses `type/subtype`.
    pub fn try_from(v: &[u8]) -> (r: Result<Fmttype, ParamError>)
        ensures
            r is Ok <==> Fmttype::parses(v@),
            r matches Ok(x) ==> Fmttype::accepts(v@, x),
    {
        match MediaType::try_from(v) {
            Ok(m) => Ok(Fmttype(m)),
            Err(e) => Err(ParamError::Value(e)),
        }
    }

    /// An `FMTTYPE` parameter for an already-parsed media type.
    pub fn new(media_type: MediaType) -> (r: Fmttype)
        ensures
            r@ == media_type.bytes(),
    {
        Fmttype(media_type)
    }

    /// The media type.
    pub fn value(&self) -> (r: &MediaType)
        ensures
            r.bytes() == self@,
    {
        &self.0
    }
}

impl Ical for Fmttype {
    open spec fn ical(&self) -> Seq<u8> {
        self@
    }

    proof fn lemma_ical_valid(&self) {
        self.0.lemma_bytes_valid();
    }

    fn write_to(&self, out: &mut Vec<u8>) {
        self.0.write_to(out)
    }
}

/// Whether a reply is expected from the calendar user (RFC 5545 §3.2.17).
#[derive(Debug)]
pub struct Rsvp(Boolean);

impl View for Rsvp {
    type V = bool;

    closed spec fn view(&self) -> bool {
        self.0.spec_value()
    }
}

impl Rsvp {
    /// Whether `v` parses.
    pub open spec fn parses(v: Seq<u8>) -> bool {
        boolean_of(v) is Some
    }

    /// Whether `x` is what `v` parses to.
    pub open spec fn accepts(v: Seq<u8>, x: Rsvp) -> bool {
        boolean_of(v) == Some(x@)
    }

    /// Parses `TRUE` or `FALSE`.
    pub fn try_from(v: &[u8]) -> (r: Result<Rsvp, ParamError>)
        ensures
            r is Ok <==> Rsvp::parses(v@),
            r matches Ok(x) ==> Rsvp::accepts(v@, x),
            r matches Err(e) ==> e is Value,
    {
        match Boolean::try_from(v) {
            Ok(b) => Ok(Rsvp(b)),
            Err(e) => Err(ParamError::Value(e)),
        }
    }

    /// An `RSVP` parameter for `value`.
    pub fn new(value: bool) -> (r: Rsvp)
        ensures
            r@ == value,
    {
        Rsvp(Boolean::new(value))
    }

    /// Whether a reply is expected.
    pub fn value(&self) -> (r: bool)
        ensures
            r == self@,
    {
        self.0.value()
    }
}

impl Ical for Rsvp {
    open spec fn ical(&self) -> Seq<u8> {
        if self@ {
            "TRUE".spec_bytes()
        } else {
            "FALSE".spec_bytes()
        }
    }

    proof fn lemma_ical_valid(&self) {
        broadcast use vstd::utf8::encode_utf8_valid_utf8;

    }

    fn write_to(&self, out: &mut Vec<u8>) {
        if self.0.value() {
            append_str(out, "TRUE")
        } else {
            append_str(out, "FALSE")
        }
    }
}

/// The calendar user acting on behalf of the one the property names: an
/// address in a quoted-string (RFC 5545 §3.2.18).
#[derive(Debug)]
pub struct SentBy(CalendarUserAddress);

impl View for SentBy {
    type V = Seq<u8>;

    closed spec fn view(&self) -> Seq<u8> {
        self.0.bytes()
    }
}

impl SentBy {
    /// Whether `v` parses.
    pub open spec fn parses(v: Seq<u8>) -> bool {
        is_quoted_address(v)
    }

    /// Whether `x` is what `v` parses to.
    pub open spec fn accepts(v: Seq<u8>, x: SentBy) -> bool {
        x@ == unquoted(v)
    }

    /// Parses a quoted-string holding a calendar user address.
    pub fn try_from(v: &[u8]) -> (r: Result<SentBy, ParamError>)
        ensures
            r is Ok <==> SentBy::parses(v@),
            r matches Ok(x) ==> SentBy::accepts(v@, x),
            !is_quoted(v@) ==> r matches Err(ParamError::QuotedString),
    {
        let inner = quoted(v)?;
        match CalendarUserAddress::try_from(inner.as_slice()) {
            Ok(a) => Ok(SentBy(a)),
            Err(e) => Err(ParamError::Value(e)),
        }
    }

    /// A `SENT-BY` parameter for an already-typed address.
    pub fn new(address: CalendarUserAddress) -> (r: SentBy)
        ensures
            r@ == address.bytes(),
    {
        SentBy(address)
    }

    /// The address.
    pub fn value(&self) -> (r: &CalendarUserAddress)
        ensures
            r.bytes() == self@,
    {
        &self.0
    }
}

impl Ical for SentBy {
    open spec fn ical(&self) -> Seq<u8> {
        quote(self@)
    }

    proof fn lemma_ical_valid(&self) {
        self.0.lemma_bytes_valid();
        lemma_quote_valid(self@);
    }

    fn write_to(&self, out: &mut Vec<u8>) {
        out.push(DQUOTE);
        self.0.write_to(out);
        out.push(DQUOTE);
        assert(out@ =~= old(out)@ + quote(self@));
    }
}
/// The calendar users who delegated their participation to the one the
/// property names: quoted addresses, `,`-separated (RFC 5545 §3.2.4).
#[derive(Debug)]
pub struct Delegators(Vec<CalendarUserAddress>);

impl View for Delegators {
    type V = Seq<Seq<u8>>;

    closed spec fn view(&self) -> Seq<Seq<u8>> {
        address_bytes(self.0@)
    }
}

impl Delegators {
    /// Whether `v` parses.
    pub open spec fn parses(v: Seq<u8>) -> bool {
        is_address_list(v)
    }

    /// Whether `x` is what `v` parses to.
    pub open spec fn accepts(v: Seq<u8>, x: Delegators) -> bool {
        x@ == addresses_of(v)
    }

    /// Parses a `,`-separated list of quoted addresses.
    pub fn try_from(v: &[u8]) -> (r: Result<Delegators, ParamError>)
        ensures
            r is Ok <==> Delegators::parses(v@),
            r matches Ok(x) ==> Delegators::accepts(v@, x),
    {
        Ok(Delegators(parse_addresses(v)?))
    }

    /// A `DELEGATED-FROM` parameter for already-typed addresses.
    pub fn new(addresses: Vec<CalendarUserAddress>) -> (r: Delegators)
        ensures
            r@ == address_bytes(addresses@),
    {
        Delegators(addresses)
    }

    /// The addresses.
    pub fn value(&self) -> (r: &[CalendarUserAddress])
        ensures
            address_bytes(r@) == self@,
    {
        self.0.as_slice()
    }
}

impl Ical for Delegators {
    open spec fn ical(&self) -> Seq<u8> {
        address_list_text(self@)
    }

    proof fn lemma_ical_valid(&self) {
        lemma_address_list_valid(self.0@);
    }

    fn write_to(&self, out: &mut Vec<u8>) {
        write_addresses(self.0.as_slice(), out)
    }
}

/// The calendar users to whom participation was delegated: quoted
/// addresses, `,`-separated (RFC 5545 §3.2.5).
#[derive(Debug)]
pub struct Delegatees(Vec<CalendarUserAddress>);

impl View for Delegatees {
    type V = Seq<Seq<u8>>;

    closed spec fn view(&self) -> Seq<Seq<u8>> {
        address_bytes(self.0@)
    }
}

impl Delegatees {
    /// Whether `v` parses.
    pub open spec fn parses(v: Seq<u8>) -> bool {
        is_address_list(v)
    }

    /// Whether `x` is what `v` parses to.
    pub open spec fn accepts(v: Seq<u8>, x: Delegatees) -> bool {
        x@ == addresses_of(v)
    }

    /// Parses a `,`-separated list of quoted addresses.
    pub fn try_from(v: &[u8]) -> (r: Result<Delegatees, ParamError>)
        ensures
            r is Ok <==> Delegatees::parses(v@),
            r matches Ok(x) ==> Delegatees::accepts(v@, x),
    {
        Ok(Delegatees(parse_addresses(v)?))
    }

    /// A `DELEGATED-TO` parameter for already-typed addresses.
    pub fn new(addresses: Vec<CalendarUserAddress>) -> (r: Delegatees)
        ensures
            r@ == address_bytes(addresses@),
    {
        Delegatees(addresses)
    }

    /// The addresses.
    pub fn value(&self) -> (r: &[CalendarUserAddress])
        ensures
            address_bytes(r@) == self@,
    {
        self.0.as_slice()
    }
}

impl Ical for Delegatees {
    open spec fn ical(&self) -> Seq<u8> {
        address_list_text(self@)
    }

    proof fn lemma_ical_valid(&self) {
        lemma_address_list_valid(self.0@);
    }

    fn write_to(&self, out: &mut Vec<u8>) {
        write_addresses(self.0.as_slice(), out)
    }
}

/// The groups or lists the calendar user belongs to: quoted addresses,
/// `,`-separated (RFC 5545 §3.2.11).
#[derive(Debug)]
pub struct Member(Vec<CalendarUserAddress>);

impl View for Member {
    type V = Seq<Seq<u8>>;

    closed spec fn view(&self) -> Seq<Seq<u8>> {
        address_bytes(self.0@)
    }
}

impl Member {
    /// Whether `v` parses.
    pub open spec fn parses(v: Seq<u8>) -> bool {
        is_address_list(v)
    }

    /// Whether `x` is what `v` parses to.
    pub open spec fn accepts(v: Seq<u8>, x: Member) -> bool {
        x@ == addresses_of(v)
    }

    /// Parses a `,`-separated list of quoted addresses.
    pub fn try_from(v: &[u8]) -> (r: Result<Member, ParamError>)
        ensures
            r is Ok <==> Member::parses(v@),
            r matches Ok(x) ==> Member::accepts(v@, x),
    {
        Ok(Member(parse_addresses(v)?))
    }

    /// A `MEMBER` parameter for already-typed addresses.
    pub fn new(addresses: Vec<CalendarUserAddress>) -> (r: Member)
        ensures
            r@ == address_bytes(addresses@),
    {
        Member(addresses)
    }

    /// The addresses.
    pub fn value(&self) -> (r: &[CalendarUserAddress])
        ensures
            address_bytes(r@) == self@,
    {
        self.0.as_slice()
    }
}

impl Ical for Member {
    open spec fn ical(&self) -> Seq<u8> {
        address_list_text(self@)
    }

    proof fn lemma_ical_valid(&self) {
        lemma_address_list_valid(self.0@);
    }

    fn write_to(&self, out: &mut Vec<u8>) {
        write_addresses(self.0.as_slice(), out)
    }
}

/// The ways an image can be displayed, `,`-separated (RFC 7986 §6.1).
#[derive(Debug)]
pub struct ImageDisplay(Vec<ImageDisplayValue>);

impl View for ImageDisplay {
    type V = Seq<ImageDisplayValue>;

    closed spec fn view(&self) -> Seq<ImageDisplayValue> {
        self.0@
    }
}

impl ImageDisplay {
    /// Whether `v` parses.
    pub open spec fn parses(v: Seq<u8>) -> bool {
        forall|i: int| 0 <= i < pieces(v, COMMA).len() ==> ImageDisplayValue::parses(
            #[trigger] pieces(v, COMMA)[i],
        )
    }

    /// Whether `x` is what `v` parses to.
    pub open spec fn accepts(v: Seq<u8>, x: ImageDisplay) -> bool {
        x@.len() == pieces(v, COMMA).len() && forall|i: int|
            0 <= i < x@.len() ==> ImageDisplayValue::accepts(pieces(v, COMMA)[i], #[trigger] x@[i])
    }

    /// Parses a `,`-separated list of values.
    pub fn try_from(v: &[u8]) -> (r: Result<ImageDisplay, ParamError>)
        ensures
            r is Ok <==> ImageDisplay::parses(v@),
            r matches Ok(x) ==> ImageDisplay::accepts(v@, x),
    {
        let ps = split_all(v, COMMA);
        let ghost all = pieces(v@, COMMA);
        let mut out: Vec<ImageDisplayValue> = Vec::new();
        let mut i: usize = 0;
        while i < ps.len()
            invariant
                i <= ps.len(),
                vec_views(ps@) == all,
                all == pieces(v@, COMMA),
                out@.len() == i,
                forall|j: int| 0 <= j < i ==> ImageDisplayValue::parses(#[trigger] all[j]),
                forall|j: int| 0 <= j < i ==> ImageDisplayValue::accepts(all[j], #[trigger] out@[j]),
            decreases ps.len() - i,
        {
            assert(ps@[i as int]@ == all[i as int]);
            let x = ImageDisplayValue::try_from(ps[i].as_slice())?;
            out.push(x);
            i += 1;
        }
        Ok(ImageDisplay(out))
    }

    /// A `DISPLAY` parameter for already-typed values.
    pub fn new(values: Vec<ImageDisplayValue>) -> (r: ImageDisplay)
        ensures
            r@ == values@,
    {
        ImageDisplay(values)
    }

    /// The values.
    pub fn value(&self) -> (r: &[ImageDisplayValue])
        ensures
            r@ == self@,
    {
        self.0.as_slice()
    }
}

impl Ical for ImageDisplay {
    open spec fn ical(&self) -> Seq<u8> {
        joined(self@.map_values(|x: ImageDisplayValue| x.ical()), COMMA)
    }

    proof fn lemma_ical_valid(&self) {
        let ws = self@.map_values(|x: ImageDisplayValue| x.ical());
        assert forall|i: int| 0 <= i < ws.len() implies valid_utf8(#[trigger] ws[i]) by {
            self@[i].lemma_ical_valid();
        }
        lemma_joined_valid(ws, COMMA);
    }

    fn write_to(&self, out: &mut Vec<u8>) {
        let mut i: usize = 0;
        assert(self@.take(0).map_values(|x: ImageDisplayValue| x.ical()) =~= seq![]);
        while i < self.0.len()
            invariant
                i <= self.0@.len(),
                out@ == old(out)@ + joined(
                    self.0@.take(i as int).map_values(|x: ImageDisplayValue| x.ical()),
                    COMMA,
                ),
            decreases self.0@.len() - i,
        {
            let ghost prev = self.0@.take(i as int).map_values(|x: ImageDisplayValue| x.ical());
            let ghost before = out@;
            if i > 0 {
                out.push(COMMA);
            }
            self.0[i].write_to(out);
            proof {
                let w = self.0@[i as int].ical();
                assert(self.0@.take(i + 1).map_values(|x: ImageDisplayValue| x.ical()) =~= prev.push(w));
                lemma_joined_push(prev, w, COMMA);
                if i > 0 {
                    assert(out@ =~= before + seq![COMMA] + w);
                }
            }
            i += 1;
        }
        assert(self.0@.take(self.0@.len() as int) =~= self.0@);
    }
}

/// The features a conference offers, `,`-separated (RFC 7986 §6.3).
#[derive(Debug)]
pub struct Feature(Vec<FeatureValue>);

impl View for Feature {
    type V = Seq<FeatureValue>;

    closed spec fn view(&self) -> Seq<FeatureValue> {
        self.0@
    }
}

impl Feature {
    /// Whether `v` parses.
    pub open spec fn parses(v: Seq<u8>) -> bool {
        forall|i: int| 0 <= i < pieces(v, COMMA).len() ==> FeatureValue::parses(
            #[trigger] pieces(v, COMMA)[i],
        )
    }

    /// Whether `x` is what `v` parses to.
    pub open spec fn accepts(v: Seq<u8>, x: Feature) -> bool {
        x@.len() == pieces(v, COMMA).len() && forall|i: int|
            0 <= i < x@.len() ==> FeatureValue::accepts(pieces(v, COMMA)[i], #[trigger] x@[i])
    }

    /// Parses a `,`-separated list of values.
    pub fn try_from(v: &[u8]) -> (r: Result<Feature, ParamError>)
        ensures
            r is Ok <==> Feature::parses(v@),
            r matches Ok(x) ==> Feature::accepts(v@, x),
    {
        let ps = split_all(v, COMMA);
        let ghost all = pieces(v@, COMMA);
        let mut out: Vec<FeatureValue> = Vec::new();
        let mut i: usize = 0;
        while i < ps.len()
            invariant
                i <= ps.len(),
                vec_views(ps@) == all,
                all == pieces(v@, COMMA),
                out@.len() == i,
                forall|j: int| 0 <= j < i ==> FeatureValue::parses(#[trigger] all[j]),
                forall|j: int| 0 <= j < i ==> FeatureValue::accepts(all[j], #[trigger] out@[j]),
            decreases ps.len() - i,
        {
            assert(ps@[i as int]@ == all[i as int]);
            let x = FeatureValue::try_from(ps[i].as_slice())?;
            out.push(x);
            i += 1;
        }
        Ok(Feature(out))
    }

    /// A `FEATURE` parameter for already-typed values.
    pub fn new(values: Vec<FeatureValue>) -> (r: Feature)
        ensures
            r@ == values@,
    {
        Feature(values)
    }

    /// The values.
    pub fn value(&self) -> (r: &[FeatureValue])
        ensures
            r@ == self@,
    {
        self.0.as_slice()
    }
}

impl Ical for Feature {
    open spec fn ical(&self) -> Seq<u8> {
        joined(self@.map_values(|x: FeatureValue| x.ical()), COMMA)
    }

    proof fn lemma_ical_valid(&self) {
        let ws = self@.map_values(|x: FeatureValue| x.ical());
        assert forall|i: int| 0 <= i < ws.len() implies valid_utf8(#[trigger] ws[i]) by {
            self@[i].lemma_ical_valid();
        }
        lemma_joined_valid(ws, COMMA);
    }

    fn write_to(&self, out: &mut Vec<u8>) {
        let mut i: usize = 0;
        assert(self@.take(0).map_values(|x: FeatureValue| x.ical()) =~= seq![]);
        while i < self.0.len()
            invariant
                i <= self.0@.len(),
                out@ == old(out)@ + joined(
                    self.0@.take(i as int).map_values(|x: FeatureValue| x.ical()),
                    COMMA,
                ),
            decreases self.0@.len() - i,
        {
            let ghost prev = self.0@.take(i as int).map_values(|x: FeatureValue| x.ical());
            let ghost before = out@;
            if i > 0 {
                out.push(COMMA);
            }
            self.0[i].write_to(out);
            proof {
                let w = self.0@[i as int].ical();
                assert(self.0@.take(i + 1).map_values(|x: FeatureValue| x.ical()) =~= prev.push(w));
                lemma_joined_push(prev, w, COMMA);
                if i > 0 {
                    assert(out@ =~= before + seq![COMMA] + w);
                }
            }
            i += 1;
        }
        assert(self.0@.take(self.0@.len() as int) =~= self.0@);
    }
}

/// The participation status of a calendar user (RFC 5545 §3.2.12). The
/// allowed values differ between `VEVENT`, `VTODO` and `VJOURNAL`; parsing
/// sends `COMPLETED` and `IN-PROCESS`, which only a `VTODO` has, to
/// [`PartStatTodo`], and everything else through [`PartStatEvent`], whose
/// values are the common superset.
#[derive(Debug)]
pub enum ParticipationStatus {
    /// Status for a `VEVENT` attendee.
    Event(PartStatEvent),
    /// Status for a `VTODO` attendee.
    Todo(PartStatTodo),
    /// Status for a `VJOURNAL` attendee.
    Journal(PartStatJournal),
    /// A non-standard, `X-`-prefixed value.
    X(Text),
    /// A value registered with IANA that isn't one of the values above.
    Iana(Text),
}

impl ParticipationStatus {
    /// Whether `v` parses.
    pub open spec fn parses(v: Seq<u8>) -> bool {
        ||| v == "COMPLETED".spec_bytes()
        ||| v == "IN-PROCESS".spec_bytes()
        ||| (has_x_prefix(v) && is_token(v))
        ||| (!has_x_prefix(v) && PartStatEvent::parses(v))
    }

    /// Whether `p` is what `v` parses to.
    pub open spec fn accepts(v: Seq<u8>, p: ParticipationStatus) -> bool {
        if v == "COMPLETED".spec_bytes() {
            p == ParticipationStatus::Todo(PartStatTodo::Completed)
        } else if v == "IN-PROCESS".spec_bytes() {
            p == ParticipationStatus::Todo(PartStatTodo::InProcess)
        } else if has_x_prefix(v) {
            p matches ParticipationStatus::X(t) && t.bytes() == unescape_text(v)
        } else {
            p matches ParticipationStatus::Event(s) && PartStatEvent::accepts(v, s)
        }
    }

    /// Parses the parameter value.
    pub fn try_from(v: &[u8]) -> (r: Result<ParticipationStatus, ParamError>)
        ensures
            r is Ok <==> ParticipationStatus::parses(v@),
            r matches Ok(p) ==> ParticipationStatus::accepts(v@, p),
    {
        if eq_str(v, "COMPLETED") {
            Ok(ParticipationStatus::Todo(PartStatTodo::Completed))
        } else if eq_str(v, "IN-PROCESS") {
            Ok(ParticipationStatus::Todo(PartStatTodo::InProcess))
        } else if x_prefixed(v) {
            Ok(ParticipationStatus::X(token(v)?))
        } else {
            match PartStatEvent::try_from(v) {
                Ok(s) => Ok(ParticipationStatus::Event(s)),
                Err(_) => Ok(ParticipationStatus::Iana(token(v)?)),
            }
        }
    }
}

impl Ical for ParticipationStatus {
    open spec fn ical(&self) -> Seq<u8> {
        match self {
            ParticipationStatus::Event(s) => s.ical(),
            ParticipationStatus::Todo(s) => s.ical(),
            ParticipationStatus::Journal(s) => s.ical(),
            ParticipationStatus::X(t) => t.bytes(),
            ParticipationStatus::Iana(t) => t.bytes(),
        }
    }

    proof fn lemma_ical_valid(&self) {
        match self {
            ParticipationStatus::Event(s) => s.lemma_ical_valid(),
            ParticipationStatus::Todo(s) => s.lemma_ical_valid(),
            ParticipationStatus::Journal(s) => s.lemma_ical_valid(),
            ParticipationStatus::X(t) => encode_utf8_valid_utf8(t@),
            ParticipationStatus::Iana(t) => encode_utf8_valid_utf8(t@),
        }
    }

    fn write_to(&self, out: &mut Vec<u8>) {
        match self {
            ParticipationStatus::Event(s) => s.write_to(out),
            ParticipationStatus::Todo(s) => s.write_to(out),
            ParticipationStatus::Journal(s) => s.write_to(out),
            ParticipationStatus::X(t) => t.write_raw(out),
            ParticipationStatus::Iana(t) => t.write_raw(out),
        }
    }
}

/// Whether `v` is a language tag as RFC 5646 defines it (`Language-Tag`).
pub uninterp spec fn is_language_tag(v: Seq<u8>) -> bool;

/// Checks `v` against RFC 5646's grammar.
///
/// Calls `langtag::LangTagBuf::from_bytes`, which succeeds exactly when the
/// bytes match the grammar. The contract names that judgement
/// `is_language_tag` and claims nothing else of it.
#[verifier::external_body]
fn check_language_tag(v: &[u8]) -> (r: bool)
    ensures
        r == is_language_tag(v@),
{
    langtag::LangTagBuf::from_bytes(v.to_vec()).is_ok()
}

/// The language of the text in a property value (RFC 5545 §3.2.10), an
/// RFC 5646 language tag, kept as written.
#[derive(Debug)]
pub struct Language(String);

impl View for Language {
    type V = Seq<char>;

    closed spec fn view(&self) -> Seq<char> {
        self.0@
    }
}

impl Language {
    /// Whether `v` parses.
    pub open spec fn parses(v: Seq<u8>) -> bool {
        is_language_tag(v) && valid_utf8(v)
    }

    /// Whether `x` is what `v` parses to.
    pub open spec fn accepts(v: Seq<u8>, x: Language) -> bool {
        encode_utf8(x@) == v
    }

    /// Parses a language tag.
    pub fn try_from(v: &[u8]) -> (r: Result<Language, ParamError>)
        ensures
            r is Ok <==> Language::parses(v@),
            r matches Ok(x) ==> Language::accepts(v@, x),
            r matches Err(e) ==> e is Language,
    {
        if !check_language_tag(v) {
            return Err(ParamError::Language);
        }
        let c = copy_range(v, 0, v.len());
        assert(c@ =~= v@);
        match string_from_utf8(c) {
            Some(s) => Ok(Language(s)),
            None => Err(ParamError::Language),
        }
    }

    /// A `LANGUAGE` parameter for `tag`, checked as parsing checks it.
    pub fn new(tag: &str) -> (r: Result<Language, ParamError>)
        ensures
            r is Ok <==> is_language_tag(tag.spec_bytes()),
            r matches Ok(l) ==> l@ == tag@,
            r matches Err(e) ==> e is Language,
    {
        if check_language_tag(tag.as_bytes()) {
            Ok(Language(tag.to_owned()))
        } else {
            Err(ParamError::Language)
        }
    }

    /// The tag.
    pub fn as_str(&self) -> (r: &str)
        ensures
            r@ == self@,
    {
        self.0.as_str()
    }
}

impl Ical for Language {
    open spec fn ical(&self) -> Seq<u8> {
        encode_utf8(self@)
    }

    proof fn lemma_ical_valid(&self) {
        encode_utf8_valid_utf8(self@);
    }

    fn write_to(&self, out: &mut Vec<u8>) {
        append_str(out, self.0.as_str())
    }
}

} // verus!
