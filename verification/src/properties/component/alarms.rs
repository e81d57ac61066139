//! Alarm properties (RFC 5545 §3.8.6).

use vstd::prelude::*;
use vstd::string::StringSliceAdditionalSpecFns;
use crate::bytes::{append_str, eq_str, first_unquoted, has_x_prefix, param_pieces, x_prefixed, COLON};
use crate::params::{Altrep, AlarmTriggerRelationship, Language, TimeZoneIdentifier, ValueDataType};
use crate::properties::{
    keepable, kept, kept_step, last_value, lemma_kept_push, lemma_kept_unmodeled_fails, lemma_line_valid, lemma_step,
    modeled, named, param_name, param_value, seg_value, split_remainder, unmodeled,
    AltrepLanguageParams, ParameterError, ParseError, SharedParams,
};
use crate::values::datetime::DateTime;
use crate::values::duration::{zone_view, DateTimeDuration, Zoned};
use crate::bytes::{lemma_str_bytes_differ, param_segments, to_upper, vec_views};
use vstd::utf8::valid_utf8;
use crate::values::{
    lemma_text_list_valid, malformed_value, parse_text_list, text_list_accepts, text_list_ical,
    text_list_parses, unescape_text, write_text_list, Ical, Integer, Text, ValueError,
};

verus! {

/// The action to invoke when an alarm is triggered (RFC 5545 §3.8.6.1).
#[derive(Debug)]
pub struct Action {
    value: ActionEnum,
    params: SharedParams,
}

impl Action {
    /// The property's value.
    pub closed spec fn spec_value(&self) -> ActionEnum {
        self.value
    }

    /// The property's parameters.
    pub closed spec fn spec_params(&self) -> SharedParams {
        self.params
    }

    /// Whether the rest of a content line, after the name, parses.
    pub open spec fn parses(v: Seq<u8>) -> bool {
        match first_unquoted(v, COLON) {
            Some(k) => SharedParams::parses(param_pieces(v.take(k))) && ActionEnum::parses(v.skip(k + 1)),
            None => false,
        }
    }

    /// Whether this property is what the rest of a content line parses to.
    pub open spec fn describes(&self, v: Seq<u8>) -> bool {
        match first_unquoted(v, COLON) {
            Some(k) => self.spec_params().describes(param_pieces(v.take(k))) && ActionEnum::accepts(v.skip(k + 1), self.spec_value()),
            None => false,
        }
    }

    /// Parses the rest of a content line, after the name: the parameters,
    /// `:`, the value.
    pub fn try_from(v: &[u8]) -> (r: Result<Action, ParseError>)
        ensures
            r is Ok <==> Action::parses(v@),
            r matches Ok(p) ==> p.describes(v@),
            first_unquoted(v@, COLON) is None ==> r matches Err(ParseError::Parameter { .. }),
    {
        let (head, tail) = split_remainder(v)?;
        let params = match SharedParams::parse(head.as_slice()) {
            Ok(p) => p,
            Err(e) => {
                return Err(ParseError::Parameters(e));
            },
        };
        let value = match ActionEnum::try_from(tail.as_slice()) {
            Ok(x) => x,
            Err(e) => {
                return Err(ParseError::Value(e));
            },
        };
        Ok(Action { value, params })
    }

    /// The property with no parameters.
    pub fn new(value: ActionEnum) -> (r: Action)
        ensures
            r.spec_value() == value,
            r.spec_params().iana_bytes() == Seq::<Seq<u8>>::empty(),
            r.spec_params().xname_bytes() == Seq::<Seq<u8>>::empty(),
    {
        Action { value, params: SharedParams::new() }
    }

    /// The property's value.
    pub fn value(&self) -> (r: &ActionEnum)
        ensures
            *r == self.spec_value(),
    {
        &self.value
    }

    /// The property's parameters.
    pub fn params(&self) -> (r: &SharedParams)
        ensures
            *r == self.spec_params(),
    {
        &self.params
    }
}

impl Ical for Action {
    /// The content line: `ACTION`, the parameters, `:`, the value.
    open spec fn ical(&self) -> Seq<u8> {
        "ACTION".spec_bytes() + self.spec_params().ical() + seq![COLON] + self.spec_value().ical()
    }

    proof fn lemma_ical_valid(&self) {
        self.spec_params().lemma_ical_valid();
        self.spec_value().lemma_ical_valid();
        lemma_line_valid("ACTION", self.spec_params().ical(), self.spec_value().ical());
    }

    fn write_to(&self, out: &mut Vec<u8>) {
        append_str(out, "ACTION");
        self.params.write_to(out);
        out.push(COLON);
        self.value.write_to(out);
        assert(out@ =~= old(out)@ + self.ical());
    }
}
/// The actions an alarm can take.
#[derive(Debug)]
pub enum ActionEnum {
    /// Play a sound.
    Audio,
    /// Display a message.
    Display,
    /// Send an email.
    Email,
    /// A non-standard, `X-`-prefixed value.
    XName(Text),
    /// A value registered with IANA that isn't one of the values above.
    Iana(Text),
}

impl ActionEnum {
    /// The keyword value `v` spells, if it spells one.
    pub open spec fn keyword(v: Seq<u8>) -> Option<ActionEnum> {
        if v == "AUDIO".spec_bytes() {
            Some(ActionEnum::Audio)
        } else if v == "DISPLAY".spec_bytes() {
            Some(ActionEnum::Display)
        } else if v == "EMAIL".spec_bytes() {
            Some(ActionEnum::Email)
        } else {
            None
        }
    }

    /// A keyword is written back as itself: whatever keyword value `v`
    /// reads as is written as `v`.
    pub proof fn lemma_keyword_written(v: Seq<u8>, p: ActionEnum)
        requires
            ActionEnum::keyword(v) == Some(p),
        ensures
            p.ical() == v,
    {
    }

    /// Whether `v` parses: a keyword, or else any TEXT.
    pub open spec fn parses(v: Seq<u8>) -> bool {
        ActionEnum::keyword(v) is Some || Text::parses(v)
    }

    /// Whether `p` is what `v` parses to: its keyword, else its text, as an
    /// x-name when it starts with `X-` and as an iana-token otherwise.
    pub open spec fn accepts(v: Seq<u8>, p: ActionEnum) -> bool {
        match ActionEnum::keyword(v) {
            Some(k) => p == k,
            None => {
                ||| (p matches ActionEnum::XName(t) && has_x_prefix(v) && t.bytes()
                    == unescape_text(v))
                ||| (p matches ActionEnum::Iana(t) && !has_x_prefix(v) && t.bytes()
                    == unescape_text(v))
            },
        }
    }

    /// Parses the parameter value.
    pub fn try_from(v: &[u8]) -> (r: Result<ActionEnum, ValueError>)
        ensures
            r is Ok <==> ActionEnum::parses(v@),
            r matches Ok(p) ==> ActionEnum::accepts(v@, p),
    {
        if eq_str(v, "AUDIO") {
            Ok(ActionEnum::Audio)
        } else if eq_str(v, "DISPLAY") {
            Ok(ActionEnum::Display)
        } else if eq_str(v, "EMAIL") {
            Ok(ActionEnum::Email)
        } else {
            let t = Text::try_from(v)?;
            if x_prefixed(v) {
                Ok(ActionEnum::XName(t))
            } else {
                Ok(ActionEnum::Iana(t))
            }
        }
    }
}

impl Ical for ActionEnum {
    open spec fn ical(&self) -> Seq<u8> {
        match self {
            ActionEnum::Audio => "AUDIO".spec_bytes(),
            ActionEnum::Display => "DISPLAY".spec_bytes(),
            ActionEnum::Email => "EMAIL".spec_bytes(),
            ActionEnum::XName(t) => t.bytes(),
            ActionEnum::Iana(t) => t.bytes(),
        }
    }

    proof fn lemma_ical_valid(&self) {
        broadcast use vstd::utf8::encode_utf8_valid_utf8;

    }

    fn write_to(&self, out: &mut Vec<u8>) {
        match self {
            ActionEnum::Audio => append_str(out, "AUDIO"),
            ActionEnum::Display => append_str(out, "DISPLAY"),
            ActionEnum::Email => append_str(out, "EMAIL"),
            ActionEnum::XName(t) => t.write_raw(out),
            ActionEnum::Iana(t) => t.write_raw(out),
        }
    }
}
/// How many more times an alarm repeats after it first fires (RFC 5545
/// §3.8.6.2).
#[derive(Debug)]
pub struct Repeat {
    value: Integer,
    params: SharedParams,
}

impl Repeat {
    /// The property's value.
    pub closed spec fn spec_value(&self) -> Integer {
        self.value
    }

    /// The property's parameters.
    pub closed spec fn spec_params(&self) -> SharedParams {
        self.params
    }

    /// Whether the rest of a content line, after the name, parses.
    pub open spec fn parses(v: Seq<u8>) -> bool {
        match first_unquoted(v, COLON) {
            Some(k) => SharedParams::parses(param_pieces(v.take(k))) && Integer::parses(v.skip(k + 1)),
            None => false,
        }
    }

    /// Whether this property is what the rest of a content line parses to.
    pub open spec fn describes(&self, v: Seq<u8>) -> bool {
        match first_unquoted(v, COLON) {
            Some(k) => self.spec_params().describes(param_pieces(v.take(k))) && Integer::accepts(v.skip(k + 1), self.spec_value()),
            None => false,
        }
    }

    /// Parses the rest of a content line, after the name: the parameters,
    /// `:`, the value.
    pub fn try_from(v: &[u8]) -> (r: Result<Repeat, ParseError>)
        ensures
            r is Ok <==> Repeat::parses(v@),
            r matches Ok(p) ==> p.describes(v@),
            first_unquoted(v@, COLON) is None ==> r matches Err(ParseError::Parameter { .. }),
    {
        let (head, tail) = split_remainder(v)?;
        let params = match SharedParams::parse(head.as_slice()) {
            Ok(p) => p,
            Err(e) => {
                return Err(ParseError::Parameters(e));
            },
        };
        let value = match Integer::try_from(tail.as_slice()) {
            Ok(x) => x,
            Err(e) => {
                return Err(ParseError::Value(e));
            },
        };
        Ok(Repeat { value, params })
    }

    /// The property with no parameters.
    pub fn new(value: Integer) -> (r: Repeat)
        ensures
            r.spec_value() == value,
            r.spec_params().iana_bytes() == Seq::<Seq<u8>>::empty(),
            r.spec_params().xname_bytes() == Seq::<Seq<u8>>::empty(),
    {
        Repeat { value, params: SharedParams::new() }
    }

    /// The property's value.
    pub fn value(&self) -> (r: &Integer)
        ensures
            *r == self.spec_value(),
    {
        &self.value
    }

    /// The property's parameters.
    pub fn params(&self) -> (r: &SharedParams)
        ensures
            *r == self.spec_params(),
    {
        &self.params
    }
}

impl Ical for Repeat {
    /// The content line: `REPEAT`, the parameters, `:`, the value.
    open spec fn ical(&self) -> Seq<u8> {
        "REPEAT".spec_bytes() + self.spec_params().ical() + seq![COLON] + self.spec_value().ical()
    }

    proof fn lemma_ical_valid(&self) {
        self.spec_params().lemma_ical_valid();
        self.spec_value().lemma_ical_valid();
        lemma_line_valid("REPEAT", self.spec_params().ical(), self.spec_value().ical());
    }

    fn write_to(&self, out: &mut Vec<u8>) {
        append_str(out, "REPEAT");
        self.params.write_to(out);
        out.push(COLON);
        self.value.write_to(out);
        assert(out@ =~= old(out)@ + self.ical());
    }
}
/// The parameters of a `TRIGGER` property.
#[derive(Debug)]
pub struct TriggerParams {
    shared: SharedParams,
    value_data_type: Option<ValueDataType>,
    tz_identifier: Option<TimeZoneIdentifier>,
    trigger_relationship: Option<AlarmTriggerRelationship>,
}

impl TriggerParams {
    /// The names of the parameters modeled here.
    pub open spec fn keys() -> Seq<Seq<u8>> {
        seq!["VALUE".spec_bytes(), "TZID".spec_bytes(), "RELATED".spec_bytes()]
    }

    /// Whether the segments `ps` parse: every unmodeled one can be kept and
    /// every modeled one holds a value of its parameter.
    pub open spec fn parses(ps: Seq<Seq<u8>>) -> bool {
        &&& kept(unmodeled(ps, TriggerParams::keys())) is Some
        &&& forall|i: int|
            0 <= i < ps.len() && named(#[trigger] ps[i], "VALUE".spec_bytes()) ==> ValueDataType::parses(
                seg_value(ps[i]),
            )
        &&& forall|i: int|
            0 <= i < ps.len() && named(#[trigger] ps[i], "TZID".spec_bytes()) ==> TimeZoneIdentifier::parses(
                seg_value(ps[i]),
            )
        &&& forall|i: int|
            0 <= i < ps.len() && named(#[trigger] ps[i], "RELATED".spec_bytes()) ==> AlarmTriggerRelationship::parses(
                seg_value(ps[i]),
            )
    }

    /// The unmodeled parameters.
    pub closed spec fn spec_shared(&self) -> SharedParams {
        self.shared
    }

    /// The `VALUE` parameter.
    pub closed spec fn spec_value_data_type(&self) -> Option<ValueDataType> {
        self.value_data_type
    }

    /// The `TZID` parameter.
    pub closed spec fn spec_tz_identifier(&self) -> Option<TimeZoneIdentifier> {
        self.tz_identifier
    }

    /// The `RELATED` parameter.
    pub closed spec fn spec_trigger_relationship(&self) -> Option<AlarmTriggerRelationship> {
        self.trigger_relationship
    }

    /// Whether these parameters are what the segments `ps` parse to: each
    /// modeled parameter from its last occurrence, the rest kept in order.
    pub open spec fn describes(&self, ps: Seq<Seq<u8>>) -> bool {
        &&& kept(unmodeled(ps, TriggerParams::keys())) == Some(
            (self.spec_shared().iana_bytes(), self.spec_shared().xname_bytes()),
        )
        &&& match last_value(ps, "VALUE".spec_bytes()) {
            Some(v) => self.spec_value_data_type() matches Some(x) && ValueDataType::accepts(v, x),
            None => self.spec_value_data_type() is None,
        }
        &&& match last_value(ps, "TZID".spec_bytes()) {
            Some(v) => self.spec_tz_identifier() matches Some(x) && TimeZoneIdentifier::accepts(v, x),
            None => self.spec_tz_identifier() is None,
        }
        &&& match last_value(ps, "RELATED".spec_bytes()) {
            Some(v) => self.spec_trigger_relationship() matches Some(x) && AlarmTriggerRelationship::accepts(v, x),
            None => self.spec_trigger_relationship() is None,
        }
    }

    /// No parameters.
    pub fn new() -> (r: TriggerParams)
        ensures
            r.spec_shared().iana_bytes() == Seq::<Seq<u8>>::empty(),
            r.spec_shared().xname_bytes() == Seq::<Seq<u8>>::empty(),
            r.spec_value_data_type() is None,
            r.spec_tz_identifier() is None,
            r.spec_trigger_relationship() is None,
    {
        TriggerParams { shared: SharedParams::new(), value_data_type: None, tz_identifier: None, trigger_relationship: None }
    }

    /// The names modeled here differ from one another.
    proof fn lemma_keys_distinct()
        ensures
            "VALUE".spec_bytes() != "TZID".spec_bytes(),
            "VALUE".spec_bytes() != "RELATED".spec_bytes(),
            "TZID".spec_bytes() != "RELATED".spec_bytes(),
    {
        reveal_strlit("VALUE");
        reveal_strlit("TZID");
        reveal_strlit("RELATED");
        lemma_str_bytes_differ("VALUE", "TZID", 0);
        lemma_str_bytes_differ("VALUE", "RELATED", 0);
        lemma_str_bytes_differ("TZID", "RELATED", 0);
    }

    /// Whether one segment can be taken: a modeled one must hold a value of
    /// its parameter, any other must be keepable.
    pub open spec fn segment_ok(seg: Seq<u8>) -> bool {
        if named(seg, "VALUE".spec_bytes()) {
            ValueDataType::parses(seg_value(seg))
        } else if named(seg, "TZID".spec_bytes()) {
            TimeZoneIdentifier::parses(seg_value(seg))
        } else if named(seg, "RELATED".spec_bytes()) {
            AlarmTriggerRelationship::parses(seg_value(seg))
        } else {
            keepable(seg)
        }
    }

    /// How taking the segment `seg` changes the parameters `p` into `q`.
    pub open spec fn segment_step(p: TriggerParams, q: TriggerParams, seg: Seq<u8>) -> bool {
        &&& if named(seg, "VALUE".spec_bytes()) {
            q.spec_value_data_type() matches Some(x) && ValueDataType::accepts(seg_value(seg), x)
        } else {
            q.spec_value_data_type() == p.spec_value_data_type()
        }
        &&& if named(seg, "TZID".spec_bytes()) {
            q.spec_tz_identifier() matches Some(x) && TimeZoneIdentifier::accepts(seg_value(seg), x)
        } else {
            q.spec_tz_identifier() == p.spec_tz_identifier()
        }
        &&& if named(seg, "RELATED".spec_bytes()) {
            q.spec_trigger_relationship() matches Some(x) && AlarmTriggerRelationship::accepts(seg_value(seg), x)
        } else {
            q.spec_trigger_relationship() == p.spec_trigger_relationship()
        }
        &&& if modeled(seg, TriggerParams::keys()) {
            q.spec_shared() == p.spec_shared()
        } else {
            kept_step(p.spec_shared().iana_bytes(), p.spec_shared().xname_bytes(), seg) == Some(
                (q.spec_shared().iana_bytes(), q.spec_shared().xname_bytes()),
            )
        }
    }

    /// Takes one `NAME=VALUE` segment.
    fn take_segment(&mut self, seg: &[u8]) -> (r: Result<(), ParameterError>)
        ensures
            r is Ok <==> TriggerParams::segment_ok(seg@),
            r is Ok ==> TriggerParams::segment_step(*old(self), *final(self), seg@),
    {
        proof {
            TriggerParams::lemma_keys_distinct();
            assert(TriggerParams::keys()[0] == "VALUE".spec_bytes());
            assert(TriggerParams::keys()[1] == "TZID".spec_bytes());
            assert(TriggerParams::keys()[2] == "RELATED".spec_bytes());
        }
        let name = match param_name(seg) {
            Ok(n) => n,
            Err(e) => {
                return Err(e);
            },
        };
        let key = to_upper(name.as_slice());
        if eq_str(key.as_slice(), "VALUE") {
            let value = param_value(seg)?;
            match ValueDataType::try_from(value.as_slice()) {
                Ok(x) => {
                    self.value_data_type = Some(x);
                    Ok(())
                },
                Err(e) => Err(ParameterError::Param(e)),
            }
        } else if eq_str(key.as_slice(), "TZID") {
            let value = param_value(seg)?;
            match TimeZoneIdentifier::try_from(value.as_slice()) {
                Ok(x) => {
                    self.tz_identifier = Some(x);
                    Ok(())
                },
                Err(e) => Err(ParameterError::Param(e)),
            }
        } else if eq_str(key.as_slice(), "RELATED") {
            let value = param_value(seg)?;
            match AlarmTriggerRelationship::try_from(value.as_slice()) {
                Ok(x) => {
                    self.trigger_relationship = Some(x);
                    Ok(())
                },
                Err(e) => Err(ParameterError::Param(e)),
            }
        } else {
            assert(!modeled(seg@, TriggerParams::keys()));
            self.shared.absorb(seg)
        }
    }

    /// Parses a parameter list.
    pub fn parse(v: &[u8]) -> (r: Result<TriggerParams, ParameterError>)
        ensures
            r is Ok <==> TriggerParams::parses(param_pieces(v@)),
            r matches Ok(p) ==> p.describes(param_pieces(v@)),
    {
        let segs = param_segments(v);
        let ghost ps = vec_views(segs@);
        let ghost keys = TriggerParams::keys();
        let mut p = TriggerParams::new();
        let mut i: usize = 0;
        assert(ps.take(0) =~= Seq::<Seq<u8>>::empty());
        while i < segs.len()
            invariant
                i <= segs.len(),
                ps == vec_views(segs@),
                ps == param_pieces(v@),
                keys == TriggerParams::keys(),
                kept(unmodeled(ps.take(i as int), keys)) == Some(
                    (p.spec_shared().iana_bytes(), p.spec_shared().xname_bytes()),
                ),
                forall|j: int|
                    0 <= j < i && named(#[trigger] ps[j], "VALUE".spec_bytes()) ==> ValueDataType::parses(
                        seg_value(ps[j]),
                    ),
                match last_value(ps.take(i as int), "VALUE".spec_bytes()) {
                    Some(w) => p.spec_value_data_type() matches Some(x) && ValueDataType::accepts(w, x),
                    None => p.spec_value_data_type() is None,
                },
                forall|j: int|
                    0 <= j < i && named(#[trigger] ps[j], "TZID".spec_bytes()) ==> TimeZoneIdentifier::parses(
                        seg_value(ps[j]),
                    ),
                match last_value(ps.take(i as int), "TZID".spec_bytes()) {
                    Some(w) => p.spec_tz_identifier() matches Some(x) && TimeZoneIdentifier::accepts(w, x),
                    None => p.spec_tz_identifier() is None,
                },
                forall|j: int|
                    0 <= j < i && named(#[trigger] ps[j], "RELATED".spec_bytes()) ==> AlarmTriggerRelationship::parses(
                        seg_value(ps[j]),
                    ),
                match last_value(ps.take(i as int), "RELATED".spec_bytes()) {
                    Some(w) => p.spec_trigger_relationship() matches Some(x) && AlarmTriggerRelationship::accepts(w, x),
                    None => p.spec_trigger_relationship() is None,
                },
            decreases segs.len() - i,
        {
            let seg = segs[i].as_slice();
            proof {
                lemma_step(ps, keys, i as int);
                assert(seg@ == ps[i as int]);
                TriggerParams::lemma_keys_distinct();
                assert(keys[0] == "VALUE".spec_bytes());
                assert(keys[1] == "TZID".spec_bytes());
                assert(keys[2] == "RELATED".spec_bytes());
                lemma_kept_push(unmodeled(ps.take(i as int), keys), ps[i as int]);
            }
            match p.take_segment(seg) {
                Ok(()) => {},
                Err(e) => {
                    proof {
                        if !modeled(ps[i as int], keys) {
                            lemma_kept_unmodeled_fails(ps, keys, i + 1, ps.len() as int);
                        }
                        assert(ps.take(ps.len() as int) =~= ps);
                    }
                    return Err(e);
                },
            }
            i += 1;
        }
        assert(ps.take(segs.len() as int) =~= ps);
        Ok(p)
    }

    /// The unmodeled parameters.
    pub fn shared(&self) -> (r: &SharedParams)
        ensures
            *r == self.spec_shared(),
    {
        &self.shared
    }

    /// The `VALUE` parameter.
    pub fn value_data_type(&self) -> (r: Option<&ValueDataType>)
        ensures
            match r {
                Some(x) => self.spec_value_data_type() == Some(*x),
                None => self.spec_value_data_type() is None,
            },
    {
        self.value_data_type.as_ref()
    }

    /// Sets the `VALUE` parameter.
    pub fn set_value_data_type(&mut self, x: ValueDataType)
        ensures
            final(self).spec_value_data_type() == Some(x),
            final(self).spec_shared() == old(self).spec_shared(),
            final(self).spec_tz_identifier() == old(self).spec_tz_identifier(),
            final(self).spec_trigger_relationship() == old(self).spec_trigger_relationship(),
    {
        self.value_data_type = Some(x);
    }

    /// The `TZID` parameter.
    pub fn tz_identifier(&self) -> (r: Option<&TimeZoneIdentifier>)
        ensures
            match r {
                Some(x) => self.spec_tz_identifier() == Some(*x),
                None => self.spec_tz_identifier() is None,
            },
    {
        self.tz_identifier.as_ref()
    }

    /// Sets the `TZID` parameter.
    pub fn set_tz_identifier(&mut self, x: TimeZoneIdentifier)
        ensures
            final(self).spec_tz_identifier() == Some(x),
            final(self).spec_shared() == old(self).spec_shared(),
            final(self).spec_value_data_type() == old(self).spec_value_data_type(),
            final(self).spec_trigger_relationship() == old(self).spec_trigger_relationship(),
    {
        self.tz_identifier = Some(x);
    }

    /// The `RELATED` parameter.
    pub fn trigger_relationship(&self) -> (r: Option<&AlarmTriggerRelationship>)
        ensures
            match r {
                Some(x) => self.spec_trigger_relationship() == Some(*x),
                None => self.spec_trigger_relationship() is None,
            },
    {
        self.trigger_relationship.as_ref()
    }

    /// Sets the `RELATED` parameter.
    pub fn set_trigger_relationship(&mut self, x: AlarmTriggerRelationship)
        ensures
            final(self).spec_trigger_relationship() == Some(x),
            final(self).spec_shared() == old(self).spec_shared(),
            final(self).spec_value_data_type() == old(self).spec_value_data_type(),
            final(self).spec_tz_identifier() == old(self).spec_tz_identifier(),
    {
        self.trigger_relationship = Some(x);
    }

    /// How the parameters are written: each modeled one that is set, then
    /// the kept ones.
    pub open spec fn ical(&self) -> Seq<u8> {
        self.value_data_type_text() + self.tz_identifier_text() + self.trigger_relationship_text() + self.spec_shared().ical()
    }

    /// The written parameters are valid UTF-8.
    pub proof fn lemma_ical_valid(&self)
        ensures
            valid_utf8(self.ical()),
    {
        self.spec_shared().lemma_ical_valid();
        let mut acc: Seq<u8> = seq![];
        assert(valid_utf8(acc));
        let part = self.value_data_type_text();
        if let Some(x) = self.spec_value_data_type() {
            x.lemma_ical_valid();
            vstd::utf8::encode_utf8_valid_utf8(";VALUE="@);
            vstd::utf8::valid_utf8_concat(";VALUE=".spec_bytes(), x.ical());
        }
        vstd::utf8::valid_utf8_concat(acc, part);
        acc = acc + part;
        let part = self.tz_identifier_text();
        if let Some(x) = self.spec_tz_identifier() {
            x.lemma_ical_valid();
            vstd::utf8::encode_utf8_valid_utf8(";TZID="@);
            vstd::utf8::valid_utf8_concat(";TZID=".spec_bytes(), x.ical());
        }
        vstd::utf8::valid_utf8_concat(acc, part);
        acc = acc + part;
        let part = self.trigger_relationship_text();
        if let Some(x) = self.spec_trigger_relationship() {
            x.lemma_ical_valid();
            vstd::utf8::encode_utf8_valid_utf8(";RELATED="@);
            vstd::utf8::valid_utf8_concat(";RELATED=".spec_bytes(), x.ical());
        }
        vstd::utf8::valid_utf8_concat(acc, part);
        acc = acc + part;
        vstd::utf8::valid_utf8_concat(acc, self.spec_shared().ical());
        assert(acc + self.spec_shared().ical() =~= self.ical());
    }

    /// The `VALUE` parameter as written, when it is set.
    pub open spec fn value_data_type_text(&self) -> Seq<u8> {
        match self.spec_value_data_type() {
            Some(x) => ";VALUE=".spec_bytes() + x.ical(),
            None => seq![],
        }
    }

    fn write_value_data_type(&self, out: &mut Vec<u8>)
        ensures
            final(out)@ == old(out)@ + self.value_data_type_text(),
    {
        if let Some(x) = &self.value_data_type {
            append_str(out, ";VALUE=");
            x.write_to(out);
        }
    }

    /// The `TZID` parameter as written, when it is set.
    pub open spec fn tz_identifier_text(&self) -> Seq<u8> {
        match self.spec_tz_identifier() {
            Some(x) => ";TZID=".spec_bytes() + x.ical(),
            None => seq![],
        }
    }

    fn write_tz_identifier(&self, out: &mut Vec<u8>)
        ensures
            final(out)@ == old(out)@ + self.tz_identifier_text(),
    {
        if let Some(x) = &self.tz_identifier {
            append_str(out, ";TZID=");
            x.write_to(out);
        }
    }

    /// The `RELATED` parameter as written, when it is set.
    pub open spec fn trigger_relationship_text(&self) -> Seq<u8> {
        match self.spec_trigger_relationship() {
            Some(x) => ";RELATED=".spec_bytes() + x.ical(),
            None => seq![],
        }
    }

    fn write_trigger_relationship(&self, out: &mut Vec<u8>)
        ensures
            final(out)@ == old(out)@ + self.trigger_relationship_text(),
    {
        if let Some(x) = &self.trigger_relationship {
            append_str(out, ";RELATED=");
            x.write_to(out);
        }
    }

    /// Appends the parameters as written.
    pub fn write_to(&self, out: &mut Vec<u8>)
        ensures
            final(out)@ == old(out)@ + self.ical(),
    {
        self.write_value_data_type(out);
        self.write_tz_identifier(out);
        self.write_trigger_relationship(out);
        self.shared.write_to(out);
        assert(out@ =~= old(out)@ + self.ical());
    }
}
/// When an alarm fires: a duration relative to its component, or an
/// absolute date-time (RFC 5545 §3.8.6.3).
#[derive(Debug)]
pub struct Trigger {
    value: DateTimeDuration,
    params: TriggerParams,
}

impl Trigger {
    /// The property's value.
    pub closed spec fn spec_value(&self) -> DateTimeDuration {
        self.value
    }

    /// The property's parameters.
    pub closed spec fn spec_params(&self) -> TriggerParams {
        self.params
    }

    /// Whether the rest of a content line, after the name, parses.
    pub open spec fn parses(v: Seq<u8>) -> bool {
        match first_unquoted(v, COLON) {
            Some(k) => TriggerParams::parses(param_pieces(v.take(k))) && DateTimeDuration::parses(v.skip(k + 1)),
            None => false,
        }
    }

    /// Whether this property is what the rest of a content line parses to.
    pub open spec fn describes(&self, v: Seq<u8>) -> bool {
        match first_unquoted(v, COLON) {
            Some(k) => self.spec_params().describes(param_pieces(v.take(k))) && DateTimeDuration::accepts(v.skip(k + 1), self.spec_value()),
            None => false,
        }
    }

    /// Parses the rest of a content line, after the name: the parameters,
    /// `:`, the value.
    pub fn try_from(v: &[u8]) -> (r: Result<Trigger, ParseError>)
        ensures
            r is Ok <==> Trigger::parses(v@),
            r matches Ok(p) ==> p.describes(v@),
            first_unquoted(v@, COLON) is None ==> r matches Err(ParseError::Parameter { .. }),
    {
        let (head, tail) = split_remainder(v)?;
        let params = match TriggerParams::parse(head.as_slice()) {
            Ok(p) => p,
            Err(e) => {
                return Err(ParseError::Parameters(e));
            },
        };
        let value = match DateTimeDuration::try_from(tail.as_slice()) {
            Ok(x) => x,
            Err(e) => {
                return Err(ParseError::Value(e));
            },
        };
        Ok(Trigger { value, params })
    }

    /// The property's value.
    pub fn value(&self) -> (r: &DateTimeDuration)
        ensures
            *r == self.spec_value(),
    {
        &self.value
    }

    /// The property's parameters.
    pub fn params(&self) -> (r: &TriggerParams)
        ensures
            *r == self.spec_params(),
    {
        &self.params
    }
}

impl Ical for Trigger {
    /// The content line: `TRIGGER`, the parameters, `:`, the value.
    open spec fn ical(&self) -> Seq<u8> {
        "TRIGGER".spec_bytes() + self.spec_params().ical() + seq![COLON] + self.spec_value().ical()
    }

    proof fn lemma_ical_valid(&self) {
        self.spec_params().lemma_ical_valid();
        self.spec_value().lemma_ical_valid();
        lemma_line_valid("TRIGGER", self.spec_params().ical(), self.spec_value().ical());
    }

    fn write_to(&self, out: &mut Vec<u8>) {
        append_str(out, "TRIGGER");
        self.params.write_to(out);
        out.push(COLON);
        self.value.write_to(out);
        assert(out@ =~= old(out)@ + self.ical());
    }
}
/// Builds a [`Trigger`].
#[derive(Debug)]
pub struct TriggerBuilder {
    value: DateTimeDuration,
    tzid: Option<TimeZoneIdentifier>,
    trigger_relationship: Option<AlarmTriggerRelationship>,
}

impl TriggerBuilder {
    /// The value being built.
    pub closed spec fn spec_value(&self) -> DateTimeDuration {
        self.value
    }

    /// The `TZID` set so far.
    pub closed spec fn spec_tzid(&self) -> Option<TimeZoneIdentifier> {
        self.tzid
    }

    /// The `RELATED` set so far.
    pub closed spec fn spec_related(&self) -> Option<AlarmTriggerRelationship> {
        self.trigger_relationship
    }

    /// A builder for `value`, with no parameters.
    pub fn new(value: DateTimeDuration) -> (r: TriggerBuilder)
        ensures
            r.spec_value() == value,
            r.spec_tzid() is None,
            r.spec_related() is None,
    {
        TriggerBuilder { value, tzid: None, trigger_relationship: None }
    }

    /// Sets `TZID`: a floating date-time is read in that zone.
    pub fn tzid(self, tzid: TimeZoneIdentifier) -> (r: TriggerBuilder)
        ensures
            r.spec_value() == self.spec_value(),
            r.spec_tzid() == Some(tzid),
            r.spec_related() == self.spec_related(),
    {
        let mut b = self;
        b.tzid = Some(tzid);
        b
    }

    /// Sets `RELATED`.
    pub fn related(self, related: AlarmTriggerRelationship) -> (r: TriggerBuilder)
        ensures
            r.spec_value() == self.spec_value(),
            r.spec_tzid() == self.spec_tzid(),
            r.spec_related() == Some(related),
    {
        let mut b = self;
        b.trigger_relationship = Some(related);
        b
    }

    /// The property: a date-time read in the `TZID` zone and marked
    /// `VALUE=DATE-TIME`; a duration as it is.
    pub fn build(self) -> (r: Trigger)
        ensures
            r.spec_value() == self.spec_value().zoned(match self.spec_tzid() {
                Some(t) => Some(t@),
                None => None,
            }),
            r.spec_params().spec_value_data_type() == if self.spec_value() is DateTime {
                Some(ValueDataType::DateTime)
            } else {
                None
            },
            r.spec_params().spec_tz_identifier() == self.spec_tzid(),
            r.spec_params().spec_trigger_relationship() == self.spec_related(),
            r.spec_params().spec_shared().iana_bytes() == Seq::<Seq<u8>>::empty(),
            r.spec_params().spec_shared().xname_bytes() == Seq::<Seq<u8>>::empty(),
    {
        let value = match &self.tzid {
            Some(t) => self.value.in_zone(Some(t.as_str())),
            None => self.value.in_zone(None),
        };
        let mut params = TriggerParams::new();
        if let DateTimeDuration::DateTime(_) = value {
            params.set_value_data_type(ValueDataType::DateTime);
        }
        if let Some(t) = self.tzid {
            params.set_tz_identifier(t);
        }
        if let Some(r) = self.trigger_relationship {
            params.set_trigger_relationship(r);
        }
        Trigger { value, params }
    }
}

} // verus!
