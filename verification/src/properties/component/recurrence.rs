//! Recurrence component properties (RFC 5545 §3.8.5).

use vstd::prelude::*;
use vstd::string::StringSliceAdditionalSpecFns;
use crate::bytes::{append_str, eq_str, first_unquoted, lemma_str_bytes_differ, param_pieces, param_segments, to_upper, vec_views, COLON};
use crate::params::{
    AlarmTriggerRelationship, Fbtype, RecurrenceIdentifierRange, TimeZoneIdentifier,
    ValueDataType,
};
use crate::properties::{
    keepable, kept, kept_step, last_value, lemma_kept_push, lemma_kept_unmodeled_fails, lemma_line_valid, lemma_step,
    modeled, named, param_name, param_value, seg_value, split_remainder, unmodeled,
    ParameterError, ParseError, SharedParams,
};
use crate::values::{
    lemma_list_valid, list_accepts, list_ical, list_parses, malformed_value, parse_list,
    write_list, Ical, Integer, Text, ValueError,
};
use crate::values::recur::Recur;
use crate::values::datetime::{date_or_datetime_resolved, DateOrDatetime, DateTime};
use crate::values::duration::{all_zoned, in_zone_all, DateTimeDuration, DateTimePeriod, Duration as DurationValue, Period, Zoned};
use vstd::utf8::valid_utf8;

verus! {

/// The parameters of an `EXDATE` property.
#[derive(Debug)]
pub struct ExDateParams {
    shared: SharedParams,
    data_type: Option<ValueDataType>,
    tzid: Option<TimeZoneIdentifier>,
}

impl ExDateParams {
    /// The names of the parameters modeled here.
    pub open spec fn keys() -> Seq<Seq<u8>> {
        seq!["VALUE".spec_bytes(), "TZID".spec_bytes()]
    }

    /// Whether the segments `ps` parse: every unmodeled one can be kept and
    /// every modeled one holds a value of its parameter.
    pub open spec fn parses(ps: Seq<Seq<u8>>) -> bool {
        &&& kept(unmodeled(ps, ExDateParams::keys())) is Some
        &&& forall|i: int|
            0 <= i < ps.len() && named(#[trigger] ps[i], "VALUE".spec_bytes()) ==> ValueDataType::parses(
                seg_value(ps[i]),
            )
        &&& forall|i: int|
            0 <= i < ps.len() && named(#[trigger] ps[i], "TZID".spec_bytes()) ==> TimeZoneIdentifier::parses(
                seg_value(ps[i]),
            )
    }

    /// The unmodeled parameters.
    pub closed spec fn spec_shared(&self) -> SharedParams {
        self.shared
    }

    /// The `VALUE` parameter.
    pub closed spec fn spec_data_type(&self) -> Option<ValueDataType> {
        self.data_type
    }

    /// The `TZID` parameter.
    pub closed spec fn spec_tzid(&self) -> Option<TimeZoneIdentifier> {
        self.tzid
    }

    /// Whether these parameters are what the segments `ps` parse to: each
    /// modeled parameter from its last occurrence, the rest kept in order.
    pub open spec fn describes(&self, ps: Seq<Seq<u8>>) -> bool {
        &&& kept(unmodeled(ps, ExDateParams::keys())) == Some(
            (self.spec_shared().iana_bytes(), self.spec_shared().xname_bytes()),
        )
        &&& match last_value(ps, "VALUE".spec_bytes()) {
            Some(v) => self.spec_data_type() matches Some(x) && ValueDataType::accepts(v, x),
            None => self.spec_data_type() is None,
        }
        &&& match last_value(ps, "TZID".spec_bytes()) {
            Some(v) => self.spec_tzid() matches Some(x) && TimeZoneIdentifier::accepts(v, x),
            None => self.spec_tzid() is None,
        }
    }

    /// No parameters.
    pub fn new() -> (r: ExDateParams)
        ensures
            r.spec_shared().iana_bytes() == Seq::<Seq<u8>>::empty(),
            r.spec_shared().xname_bytes() == Seq::<Seq<u8>>::empty(),
            r.spec_data_type() is None,
            r.spec_tzid() is None,
    {
        ExDateParams { shared: SharedParams::new(), data_type: None, tzid: None }
    }

    /// The names modeled here differ from one another.
    proof fn lemma_keys_distinct()
        ensures
            "VALUE".spec_bytes() != "TZID".spec_bytes(),
    {
        reveal_strlit("VALUE");
        reveal_strlit("TZID");
        lemma_str_bytes_differ("VALUE", "TZID", 0);
    }

    /// Whether one segment can be taken: a modeled one must hold a value of
    /// its parameter, any other must be keepable.
    pub open spec fn segment_ok(seg: Seq<u8>) -> bool {
        if named(seg, "VALUE".spec_bytes()) {
            ValueDataType::parses(seg_value(seg))
        } else if named(seg, "TZID".spec_bytes()) {
            TimeZoneIdentifier::parses(seg_value(seg))
        } else {
            keepable(seg)
        }
    }

    /// How taking the segment `seg` changes the parameters `p` into `q`.
    pub open spec fn segment_step(p: ExDateParams, q: ExDateParams, seg: Seq<u8>) -> bool {
        &&& if named(seg, "VALUE".spec_bytes()) {
            q.spec_data_type() matches Some(x) && ValueDataType::accepts(seg_value(seg), x)
        } else {
            q.spec_data_type() == p.spec_data_type()
        }
        &&& if named(seg, "TZID".spec_bytes()) {
            q.spec_tzid() matches Some(x) && TimeZoneIdentifier::accepts(seg_value(seg), x)
        } else {
            q.spec_tzid() == p.spec_tzid()
        }
        &&& if modeled(seg, ExDateParams::keys()) {
            q.spec_shared() == p.spec_shared()
        } else {
            kept_step(p.spec_shared().iana_bytes(), p.spec_shared().xname_bytes(), seg) == Some(
                (q.spec_shared().iana_bytes(), q.spec_shared().xname_bytes()),
            )
        }
    }

    /// Takes one `NAME=VALUE` segment.
    fn take_segment(&mut self, seg: &[u8]) -> (r: Result<(), ParameterError>)
        ensures
            r is Ok <==> ExDateParams::segment_ok(seg@),
            r is Ok ==> ExDateParams::segment_step(*old(self), *final(self), seg@),
    {
        proof {
            ExDateParams::lemma_keys_distinct();
            assert(ExDateParams::keys()[0] == "VALUE".spec_bytes());
            assert(ExDateParams::keys()[1] == "TZID".spec_bytes());
        }
        let name = match param_name(seg) {
            Ok(n) => n,
            Err(e) => {
                return Err(e);
            },
        };
        let key = to_upper(name.as_slice());
        if eq_str(key.as_slice(), "VALUE") {
            let value = param_value(seg)?;
            match ValueDataType::try_from(value.as_slice()) {
                Ok(x) => {
                    self.data_type = Some(x);
                    Ok(())
                },
                Err(e) => Err(ParameterError::Param(e)),
            }
        } else if eq_str(key.as_slice(), "TZID") {
            let value = param_value(seg)?;
            match TimeZoneIdentifier::try_from(value.as_slice()) {
                Ok(x) => {
                    self.tzid = Some(x);
                    Ok(())
                },
                Err(e) => Err(ParameterError::Param(e)),
            }
        } else {
            assert(!modeled(seg@, ExDateParams::keys()));
            self.shared.absorb(seg)
        }
    }

    /// Parses a parameter list.
    pub fn parse(v: &[u8]) -> (r: Result<ExDateParams, ParameterError>)
        ensures
            r is Ok <==> ExDateParams::parses(param_pieces(v@)),
            r matches Ok(p) ==> p.describes(param_pieces(v@)),
    {
        let segs = param_segments(v);
        let ghost ps = vec_views(segs@);
        let ghost keys = ExDateParams::keys();
        let mut p = ExDateParams::new();
        let mut i: usize = 0;
        assert(ps.take(0) =~= Seq::<Seq<u8>>::empty());
        while i < segs.len()
            invariant
                i <= segs.len(),
                ps == vec_views(segs@),
                ps == param_pieces(v@),
                keys == ExDateParams::keys(),
                kept(unmodeled(ps.take(i as int), keys)) == Some(
                    (p.spec_shared().iana_bytes(), p.spec_shared().xname_bytes()),
                ),
                forall|j: int|
                    0 <= j < i && named(#[trigger] ps[j], "VALUE".spec_bytes()) ==> ValueDataType::parses(
                        seg_value(ps[j]),
                    ),
                match last_value(ps.take(i as int), "VALUE".spec_bytes()) {
                    Some(w) => p.spec_data_type() matches Some(x) && ValueDataType::accepts(w, x),
                    None => p.spec_data_type() is None,
                },
                forall|j: int|
                    0 <= j < i && named(#[trigger] ps[j], "TZID".spec_bytes()) ==> TimeZoneIdentifier::parses(
                        seg_value(ps[j]),
                    ),
                match last_value(ps.take(i as int), "TZID".spec_bytes()) {
                    Some(w) => p.spec_tzid() matches Some(x) && TimeZoneIdentifier::accepts(w, x),
                    None => p.spec_tzid() is None,
                },
            decreases segs.len() - i,
        {
            let seg = segs[i].as_slice();
            proof {
                lemma_step(ps, keys, i as int);
                assert(seg@ == ps[i as int]);
                ExDateParams::lemma_keys_distinct();
                assert(keys[0] == "VALUE".spec_bytes());
                assert(keys[1] == "TZID".spec_bytes());
                lemma_kept_push(unmodeled(ps.take(i as int), keys), ps[i as int]);
            }
            match p.take_segment(seg) {
                Ok(()) => {},
                Err(e) => {
                    proof {
                        if !modeled(ps[i as int], keys) {
                            lemma_kept_unmodeled_fails(ps, keys, i + 1, ps.len() as int);
                        }
                        assert(ps.take(ps.len() as int) =~= ps);
                    }
                    return Err(e);
                },
            }
            i += 1;
        }
        assert(ps.take(segs.len() as int) =~= ps);
        Ok(p)
    }

    /// The unmodeled parameters.
    pub fn shared(&self) -> (r: &SharedParams)
        ensures
            *r == self.spec_shared(),
    {
        &self.shared
    }

    /// The `VALUE` parameter.
    pub fn data_type(&self) -> (r: Option<&ValueDataType>)
        ensures
            match r {
                Some(x) => self.spec_data_type() == Some(*x),
                None => self.spec_data_type() is None,
            },
    {
        self.data_type.as_ref()
    }

    /// Sets the `VALUE` parameter.
    pub fn set_data_type(&mut self, x: ValueDataType)
        ensures
            final(self).spec_data_type() == Some(x),
            final(self).spec_shared() == old(self).spec_shared(),
            final(self).spec_tzid() == old(self).spec_tzid(),
    {
        self.data_type = Some(x);
    }

    /// The `TZID` parameter.
    pub fn tzid(&self) -> (r: Option<&TimeZoneIdentifier>)
        ensures
            match r {
                Some(x) => self.spec_tzid() == Some(*x),
                None => self.spec_tzid() is None,
            },
    {
        self.tzid.as_ref()
    }

    /// Sets the `TZID` parameter.
    pub fn set_tzid(&mut self, x: TimeZoneIdentifier)
        ensures
            final(self).spec_tzid() == Some(x),
            final(self).spec_shared() == old(self).spec_shared(),
            final(self).spec_data_type() == old(self).spec_data_type(),
    {
        self.tzid = Some(x);
    }

    /// How the parameters are written: each modeled one that is set, then
    /// the kept ones.
    pub open spec fn ical(&self) -> Seq<u8> {
        self.data_type_text() + self.tzid_text() + self.spec_shared().ical()
    }

    /// The written parameters are valid UTF-8.
    pub proof fn lemma_ical_valid(&self)
        ensures
            valid_utf8(self.ical()),
    {
        self.spec_shared().lemma_ical_valid();
        let mut acc: Seq<u8> = seq![];
        assert(valid_utf8(acc));
        let part = self.data_type_text();
        if let Some(x) = self.spec_data_type() {
            x.lemma_ical_valid();
            vstd::utf8::encode_utf8_valid_utf8(";VALUE="@);
            vstd::utf8::valid_utf8_concat(";VALUE=".spec_bytes(), x.ical());
        }
        vstd::utf8::valid_utf8_concat(acc, part);
        acc = acc + part;
        let part = self.tzid_text();
        if let Some(x) = self.spec_tzid() {
            x.lemma_ical_valid();
            vstd::utf8::encode_utf8_valid_utf8(";TZID="@);
            vstd::utf8::valid_utf8_concat(";TZID=".spec_bytes(), x.ical());
        }
        vstd::utf8::valid_utf8_concat(acc, part);
        acc = acc + part;
        vstd::utf8::valid_utf8_concat(acc, self.spec_shared().ical());
        assert(acc + self.spec_shared().ical() =~= self.ical());
    }

    /// The `VALUE` parameter as written, when it is set.
    pub open spec fn data_type_text(&self) -> Seq<u8> {
        match self.spec_data_type() {
            Some(x) => ";VALUE=".spec_bytes() + x.ical(),
            None => seq![],
        }
    }

    fn write_data_type(&self, out: &mut Vec<u8>)
        ensures
            final(out)@ == old(out)@ + self.data_type_text(),
    {
        if let Some(x) = &self.data_type {
            append_str(out, ";VALUE=");
            x.write_to(out);
        }
    }

    /// The `TZID` parameter as written, when it is set.
    pub open spec fn tzid_text(&self) -> Seq<u8> {
        match self.spec_tzid() {
            Some(x) => ";TZID=".spec_bytes() + x.ical(),
            None => seq![],
        }
    }

    fn write_tzid(&self, out: &mut Vec<u8>)
        ensures
            final(out)@ == old(out)@ + self.tzid_text(),
    {
        if let Some(x) = &self.tzid {
            append_str(out, ";TZID=");
            x.write_to(out);
        }
    }

    /// Appends the parameters as written.
    pub fn write_to(&self, out: &mut Vec<u8>)
        ensures
            final(out)@ == old(out)@ + self.ical(),
    {
        self.write_data_type(out);
        self.write_tzid(out);
        self.shared.write_to(out);
        assert(out@ =~= old(out)@ + self.ical());
    }
}
/// Dates or date-times excluded from a recurrence set (RFC 5545 §3.8.5.1).
#[derive(Debug)]
pub struct ExceptionDateTimes {
    value: Vec<DateOrDatetime>,
    params: ExDateParams,
}

impl ExceptionDateTimes {
    /// The property's values.
    pub closed spec fn spec_value(&self) -> Seq<DateOrDatetime> {
        self.value@
    }

    /// The property's parameters.
    pub closed spec fn spec_params(&self) -> ExDateParams {
        self.params
    }

    /// The `TZID` parameter's text, if there is one.
    pub fn tzid(&self) -> (r: Option<&str>)
        ensures
            match r {
                Some(t) => self.zone() == Some(t@),
                None => self.zone() is None,
            },
    {
        match self.params.tzid() {
            Some(t) => Some(t.as_str()),
            None => None,
        }
    }

    /// The zone the `TZID` parameter names, if there is one.
    pub open spec fn zone(&self) -> Option<Seq<char>> {
        match self.spec_params().spec_tzid() {
            Some(t) => Some(t@),
            None => None,
        }
    }

    /// Whether the rest of a content line, after the name, parses.
    pub open spec fn parses(v: Seq<u8>) -> bool {
        match first_unquoted(v, COLON) {
            Some(k) => ExDateParams::parses(param_pieces(v.take(k))) && list_parses::<DateOrDatetime>(v.skip(k + 1)),
            None => false,
        }
    }

    /// Whether this property is what the rest of a content line parses to:
    /// each value as written, read in the zone `TZID` names.
    pub open spec fn describes(&self, v: Seq<u8>) -> bool {
        match first_unquoted(v, COLON) {
            Some(k) => self.spec_params().describes(param_pieces(v.take(k))) && exists|xs: Seq<DateOrDatetime>|
                list_accepts(v.skip(k + 1), xs) && self.spec_value() == all_zoned(xs, self.zone()),
            None => false,
        }
    }

    /// Parses the rest of a content line, after the name, and reads the
    /// floating date-times in the zone `TZID` names.
    pub fn try_from(v: &[u8]) -> (r: Result<ExceptionDateTimes, ParseError>)
        ensures
            r is Ok <==> ExceptionDateTimes::parses(v@),
            r matches Ok(p) ==> p.describes(v@),
            first_unquoted(v@, COLON) is None ==> r matches Err(ParseError::Parameter { .. }),
    {
        let (head, tail) = split_remainder(v)?;
        let params = match ExDateParams::parse(head.as_slice()) {
            Ok(p) => p,
            Err(e) => {
                return Err(ParseError::Parameters(e));
            },
        };
        let parsed = match parse_list::<DateOrDatetime>(tail.as_slice()) {
            Ok(x) => x,
            Err(e) => {
                return Err(ParseError::Value(e));
            },
        };
        let value = match params.tzid() {
            Some(t) => in_zone_all(parsed.as_slice(), Some(t.as_str())),
            None => in_zone_all(parsed.as_slice(), None),
        };
        let r = ExceptionDateTimes { value, params };
        assert(list_accepts(tail@, parsed@) && r.spec_value() == all_zoned(parsed@, r.zone()));
        Ok(r)
    }

    /// The property for `value`, read in the zone `tzid` names, with a
    /// `VALUE` parameter matching the first value.
    pub fn new(value: Vec<DateOrDatetime>, tzid: Option<TimeZoneIdentifier>) -> (r: ExceptionDateTimes)
        ensures
            r.spec_value() == all_zoned(value@, match tzid {
                Some(t) => Some(t@),
                None => None,
            }),
            r.spec_params().spec_tzid() == tzid,
            r.spec_params().spec_data_type() == if value@.len() > 0 {
                date_type_spec(value@[0])
            } else {
                None
            },
            r.spec_params().spec_shared().iana_bytes() == Seq::<Seq<u8>>::empty(),
            r.spec_params().spec_shared().xname_bytes() == Seq::<Seq<u8>>::empty(),
    {
        let zoned = match &tzid {
            Some(t) => in_zone_all(value.as_slice(), Some(t.as_str())),
            None => in_zone_all(value.as_slice(), None),
        };
        let mut params = ExDateParams::new();
        if value.len() > 0 {
            match date_type_of(&value[0]) {
                Some(d) => params.set_data_type(d),
                None => {},
            }
        }
        if let Some(t) = tzid {
            params.set_tzid(t);
        }
        ExceptionDateTimes { value: zoned, params }
    }

    /// The property's values.
    pub fn value(&self) -> (r: &[DateOrDatetime])
        ensures
            r@ == self.spec_value(),
    {
        self.value.as_slice()
    }

    /// The property's parameters.
    pub fn params(&self) -> (r: &ExDateParams)
        ensures
            *r == self.spec_params(),
    {
        &self.params
    }
}

impl Ical for ExceptionDateTimes {
    /// The content line: `EXDATE`, the parameters, `:`, the values.
    open spec fn ical(&self) -> Seq<u8> {
        "EXDATE".spec_bytes() + self.spec_params().ical() + seq![COLON] + list_ical(self.spec_value())
    }

    proof fn lemma_ical_valid(&self) {
        self.spec_params().lemma_ical_valid();
        lemma_list_valid(self.spec_value());
        lemma_line_valid("EXDATE", self.spec_params().ical(), list_ical(self.spec_value()));
    }

    fn write_to(&self, out: &mut Vec<u8>) {
        append_str(out, "EXDATE");
        self.params.write_to(out);
        out.push(COLON);
        write_list(self.value.as_slice(), out);
        assert(out@ =~= old(out)@ + self.ical());
    }
}

/// The parameters of an `RDATE` property.
#[derive(Debug)]
pub struct RDateParams {
    shared: SharedParams,
    data_type: Option<ValueDataType>,
    tzid: Option<TimeZoneIdentifier>,
}

impl RDateParams {
    /// The names of the parameters modeled here.
    pub open spec fn keys() -> Seq<Seq<u8>> {
        seq!["VALUE".spec_bytes(), "TZID".spec_bytes()]
    }

    /// Whether the segments `ps` parse: every unmodeled one can be kept and
    /// every modeled one holds a value of its parameter.
    pub open spec fn parses(ps: Seq<Seq<u8>>) -> bool {
        &&& kept(unmodeled(ps, RDateParams::keys())) is Some
        &&& forall|i: int|
            0 <= i < ps.len() && named(#[trigger] ps[i], "VALUE".spec_bytes()) ==> ValueDataType::parses(
                seg_value(ps[i]),
            )
        &&& forall|i: int|
            0 <= i < ps.len() && named(#[trigger] ps[i], "TZID".spec_bytes()) ==> TimeZoneIdentifier::parses(
                seg_value(ps[i]),
            )
    }

    /// The unmodeled parameters.
    pub closed spec fn spec_shared(&self) -> SharedParams {
        self.shared
    }

    /// The `VALUE` parameter.
    pub closed spec fn spec_data_type(&self) -> Option<ValueDataType> {
        self.data_type
    }

    /// The `TZID` parameter.
    pub closed spec fn spec_tzid(&self) -> Option<TimeZoneIdentifier> {
        self.tzid
    }

    /// Whether these parameters are what the segments `ps` parse to: each
    /// modeled parameter from its last occurrence, the rest kept in order.
    pub open spec fn describes(&self, ps: Seq<Seq<u8>>) -> bool {
        &&& kept(unmodeled(ps, RDateParams::keys())) == Some(
            (self.spec_shared().iana_bytes(), self.spec_shared().xname_bytes()),
        )
        &&& match last_value(ps, "VALUE".spec_bytes()) {
            Some(v) => self.spec_data_type() matches Some(x) && ValueDataType::accepts(v, x),
            None => self.spec_data_type() is None,
        }
        &&& match last_value(ps, "TZID".spec_bytes()) {
            Some(v) => self.spec_tzid() matches Some(x) && TimeZoneIdentifier::accepts(v, x),
            None => self.spec_tzid() is None,
        }
    }

    /// No parameters.
    pub fn new() -> (r: RDateParams)
        ensures
            r.spec_shared().iana_bytes() == Seq::<Seq<u8>>::empty(),
            r.spec_shared().xname_bytes() == Seq::<Seq<u8>>::empty(),
            r.spec_data_type() is None,
            r.spec_tzid() is None,
    {
        RDateParams { shared: SharedParams::new(), data_type: None, tzid: None }
    }

    /// The names modeled here differ from one another.
    proof fn lemma_keys_distinct()
        ensures
            "VALUE".spec_bytes() != "TZID".spec_bytes(),
    {
        reveal_strlit("VALUE");
        reveal_strlit("TZID");
        lemma_str_bytes_differ("VALUE", "TZID", 0);
    }

    /// Whether one segment can be taken: a modeled one must hold a value of
    /// its parameter, any other must be keepable.
    pub open spec fn segment_ok(seg: Seq<u8>) -> bool {
        if named(seg, "VALUE".spec_bytes()) {
            ValueDataType::parses(seg_value(seg))
        } else if named(seg, "TZID".spec_bytes()) {
            TimeZoneIdentifier::parses(seg_value(seg))
        } else {
            keepable(seg)
        }
    }

    /// How taking the segment `seg` changes the parameters `p` into `q`.
    pub open spec fn segment_step(p: RDateParams, q: RDateParams, seg: Seq<u8>) -> bool {
        &&& if named(seg, "VALUE".spec_bytes()) {
            q.spec_data_type() matches Some(x) && ValueDataType::accepts(seg_value(seg), x)
        } else {
            q.spec_data_type() == p.spec_data_type()
        }
        &&& if named(seg, "TZID".spec_bytes()) {
            q.spec_tzid() matches Some(x) && TimeZoneIdentifier::accepts(seg_value(seg), x)
        } else {
            q.spec_tzid() == p.spec_tzid()
        }
        &&& if modeled(seg, RDateParams::keys()) {
            q.spec_shared() == p.spec_shared()
        } else {
            kept_step(p.spec_shared().iana_bytes(), p.spec_shared().xname_bytes(), seg) == Some(
                (q.spec_shared().iana_bytes(), q.spec_shared().xname_bytes()),
            )
        }
    }

    /// Takes one `NAME=VALUE` segment.
    fn take_segment(&mut self, seg: &[u8]) -> (r: Result<(), ParameterError>)
        ensures
            r is Ok <==> RDateParams::segment_ok(seg@),
            r is Ok ==> RDateParams::segment_step(*old(self), *final(self), seg@),
    {
        proof {
            RDateParams::lemma_keys_distinct();
            assert(RDateParams::keys()[0] == "VALUE".spec_bytes());
            assert(RDateParams::keys()[1] == "TZID".spec_bytes());
        }
        let name = match param_name(seg) {
            Ok(n) => n,
            Err(e) => {
                return Err(e);
            },
        };
        let key = to_upper(name.as_slice());
        if eq_str(key.as_slice(), "VALUE") {
            let value = param_value(seg)?;
            match ValueDataType::try_from(value.as_slice()) {
                Ok(x) => {
                    self.data_type = Some(x);
                    Ok(())
                },
                Err(e) => Err(ParameterError::Param(e)),
            }
        } else if eq_str(key.as_slice(), "TZID") {
            let value = param_value(seg)?;
            match TimeZoneIdentifier::try_from(value.as_slice()) {
                Ok(x) => {
                    self.tzid = Some(x);
                    Ok(())
                },
                Err(e) => Err(ParameterError::Param(e)),
            }
        } else {
            assert(!modeled(seg@, RDateParams::keys()));
            self.shared.absorb(seg)
        }
    }

    /// Parses a parameter list.
    pub fn parse(v: &[u8]) -> (r: Result<RDateParams, ParameterError>)
        ensures
            r is Ok <==> RDateParams::parses(param_pieces(v@)),
            r matches Ok(p) ==> p.describes(param_pieces(v@)),
    {
        let segs = param_segments(v);
        let ghost ps = vec_views(segs@);
        let ghost keys = RDateParams::keys();
        let mut p = RDateParams::new();
        let mut i: usize = 0;
        assert(ps.take(0) =~= Seq::<Seq<u8>>::empty());
        while i < segs.len()
            invariant
                i <= segs.len(),
                ps == vec_views(segs@),
                ps == param_pieces(v@),
                keys == RDateParams::keys(),
                kept(unmodeled(ps.take(i as int), keys)) == Some(
                    (p.spec_shared().iana_bytes(), p.spec_shared().xname_bytes()),
                ),
                forall|j: int|
                    0 <= j < i && named(#[trigger] ps[j], "VALUE".spec_bytes()) ==> ValueDataType::parses(
                        seg_value(ps[j]),
                    ),
                match last_value(ps.take(i as int), "VALUE".spec_bytes()) {
                    Some(w) => p.spec_data_type() matches Some(x) && ValueDataType::accepts(w, x),
                    None => p.spec_data_type() is None,
                },
                forall|j: int|
                    0 <= j < i && named(#[trigger] ps[j], "TZID".spec_bytes()) ==> TimeZoneIdentifier::parses(
                        seg_value(ps[j]),
                    ),
                match last_value(ps.take(i as int), "TZID".spec_bytes()) {
                    Some(w) => p.spec_tzid() matches Some(x) && TimeZoneIdentifier::accepts(w, x),
                    None => p.spec_tzid() is None,
                },
            decreases segs.len() - i,
        {
            let seg = segs[i].as_slice();
            proof {
                lemma_step(ps, keys, i as int);
                assert(seg@ == ps[i as int]);
                RDateParams::lemma_keys_distinct();
                assert(keys[0] == "VALUE".spec_bytes());
                assert(keys[1] == "TZID".spec_bytes());
                lemma_kept_push(unmodeled(ps.take(i as int), keys), ps[i as int]);
            }
            match p.take_segment(seg) {
                Ok(()) => {},
                Err(e) => {
                    proof {
                        if !modeled(ps[i as int], keys) {
                            lemma_kept_unmodeled_fails(ps, keys, i + 1, ps.len() as int);
                        }
                        assert(ps.take(ps.len() as int) =~= ps);
                    }
                    return Err(e);
                },
            }
            i += 1;
        }
        assert(ps.take(segs.len() as int) =~= ps);
        Ok(p)
    }

    /// The unmodeled parameters.
    pub fn shared(&self) -> (r: &SharedParams)
        ensures
            *r == self.spec_shared(),
    {
        &self.shared
    }

    /// The `VALUE` parameter.
    pub fn data_type(&self) -> (r: Option<&ValueDataType>)
        ensures
            match r {
                Some(x) => self.spec_data_type() == Some(*x),
                None => self.spec_data_type() is None,
            },
    {
        self.data_type.as_ref()
    }

    /// Sets the `VALUE` parameter.
    pub fn set_data_type(&mut self, x: ValueDataType)
        ensures
            final(self).spec_data_type() == Some(x),
            final(self).spec_shared() == old(self).spec_shared(),
            final(self).spec_tzid() == old(self).spec_tzid(),
    {
        self.data_type = Some(x);
    }

    /// The `TZID` parameter.
    pub fn tzid(&self) -> (r: Option<&TimeZoneIdentifier>)
        ensures
            match r {
                Some(x) => self.spec_tzid() == Some(*x),
                None => self.spec_tzid() is None,
            },
    {
        self.tzid.as_ref()
    }

    /// Sets the `TZID` parameter.
    pub fn set_tzid(&mut self, x: TimeZoneIdentifier)
        ensures
            final(self).spec_tzid() == Some(x),
            final(self).spec_shared() == old(self).spec_shared(),
            final(self).spec_data_type() == old(self).spec_data_type(),
    {
        self.tzid = Some(x);
    }

    /// How the parameters are written: each modeled one that is set, then
    /// the kept ones.
    pub open spec fn ical(&self) -> Seq<u8> {
        self.data_type_text() + self.tzid_text() + self.spec_shared().ical()
    }

    /// The written parameters are valid UTF-8.
    pub proof fn lemma_ical_valid(&self)
        ensures
            valid_utf8(self.ical()),
    {
        self.spec_shared().lemma_ical_valid();
        let mut acc: Seq<u8> = seq![];
        assert(valid_utf8(acc));
        let part = self.data_type_text();
        if let Some(x) = self.spec_data_type() {
            x.lemma_ical_valid();
            vstd::utf8::encode_utf8_valid_utf8(";VALUE="@);
            vstd::utf8::valid_utf8_concat(";VALUE=".spec_bytes(), x.ical());
        }
        vstd::utf8::valid_utf8_concat(acc, part);
        acc = acc + part;
        let part = self.tzid_text();
        if let Some(x) = self.spec_tzid() {
            x.lemma_ical_valid();
            vstd::utf8::encode_utf8_valid_utf8(";TZID="@);
            vstd::utf8::valid_utf8_concat(";TZID=".spec_bytes(), x.ical());
        }
        vstd::utf8::valid_utf8_concat(acc, part);
        acc = acc + part;
        vstd::utf8::valid_utf8_concat(acc, self.spec_shared().ical());
        assert(acc + self.spec_shared().ical() =~= self.ical());
    }

    /// The `VALUE` parameter as written, when it is set.
    pub open spec fn data_type_text(&self) -> Seq<u8> {
        match self.spec_data_type() {
            Some(x) => ";VALUE=".spec_bytes() + x.ical(),
            None => seq![],
        }
    }

    fn write_data_type(&self, out: &mut Vec<u8>)
        ensures
            final(out)@ == old(out)@ + self.data_type_text(),
    {
        if let Some(x) = &self.data_type {
            append_str(out, ";VALUE=");
            x.write_to(out);
        }
    }

    /// The `TZID` parameter as written, when it is set.
    pub open spec fn tzid_text(&self) -> Seq<u8> {
        match self.spec_tzid() {
            Some(x) => ";TZID=".spec_bytes() + x.ical(),
            None => seq![],
        }
    }

    fn write_tzid(&self, out: &mut Vec<u8>)
        ensures
            final(out)@ == old(out)@ + self.tzid_text(),
    {
        if let Some(x) = &self.tzid {
            append_str(out, ";TZID=");
            x.write_to(out);
        }
    }

    /// Appends the parameters as written.
    pub fn write_to(&self, out: &mut Vec<u8>)
        ensures
            final(out)@ == old(out)@ + self.ical(),
    {
        self.write_data_type(out);
        self.write_tzid(out);
        self.shared.write_to(out);
        assert(out@ =~= old(out)@ + self.ical());
    }
}
/// Dates, date-times or periods added to a recurrence set (RFC 5545
/// §3.8.5.2).
#[derive(Debug)]
pub struct RecurrenceDateTimes {
    value: Vec<DateTimePeriod>,
    params: RDateParams,
}

impl RecurrenceDateTimes {
    /// The property's values.
    pub closed spec fn spec_value(&self) -> Seq<DateTimePeriod> {
        self.value@
    }

    /// The property's parameters.
    pub closed spec fn spec_params(&self) -> RDateParams {
        self.params
    }

    /// The `TZID` parameter's text, if there is one.
    pub fn tzid(&self) -> (r: Option<&str>)
        ensures
            match r {
                Some(t) => self.zone() == Some(t@),
                None => self.zone() is None,
            },
    {
        match self.params.tzid() {
            Some(t) => Some(t.as_str()),
            None => None,
        }
    }

    /// The zone the `TZID` parameter names, if there is one.
    pub open spec fn zone(&self) -> Option<Seq<char>> {
        match self.spec_params().spec_tzid() {
            Some(t) => Some(t@),
            None => None,
        }
    }

    /// Whether the rest of a content line, after the name, parses.
    pub open spec fn parses(v: Seq<u8>) -> bool {
        match first_unquoted(v, COLON) {
            Some(k) => RDateParams::parses(param_pieces(v.take(k))) && list_parses::<DateTimePeriod>(v.skip(k + 1)),
            None => false,
        }
    }

    /// Whether this property is what the rest of a content line parses to:
    /// each value as written, read in the zone `TZID` names.
    pub open spec fn describes(&self, v: Seq<u8>) -> bool {
        match first_unquoted(v, COLON) {
            Some(k) => self.spec_params().describes(param_pieces(v.take(k))) && exists|xs: Seq<DateTimePeriod>|
                list_accepts(v.skip(k + 1), xs) && self.spec_value() == all_zoned(xs, self.zone()),
            None => false,
        }
    }

    /// Parses the rest of a content line, after the name, and reads the
    /// floating date-times in the zone `TZID` names.
    pub fn try_from(v: &[u8]) -> (r: Result<RecurrenceDateTimes, ParseError>)
        ensures
            r is Ok <==> RecurrenceDateTimes::parses(v@),
            r matches Ok(p) ==> p.describes(v@),
            first_unquoted(v@, COLON) is None ==> r matches Err(ParseError::Parameter { .. }),
    {
        let (head, tail) = split_remainder(v)?;
        let params = match RDateParams::parse(head.as_slice()) {
            Ok(p) => p,
            Err(e) => {
                return Err(ParseError::Parameters(e));
            },
        };
        let parsed = match parse_list::<DateTimePeriod>(tail.as_slice()) {
            Ok(x) => x,
            Err(e) => {
                return Err(ParseError::Value(e));
            },
        };
        let value = match params.tzid() {
            Some(t) => in_zone_all(parsed.as_slice(), Some(t.as_str())),
            None => in_zone_all(parsed.as_slice(), None),
        };
        let r = RecurrenceDateTimes { value, params };
        assert(list_accepts(tail@, parsed@) && r.spec_value() == all_zoned(parsed@, r.zone()));
        Ok(r)
    }

    /// The property for `value`, read in the zone `tzid` names, with a
    /// `VALUE` parameter matching the first value.
    pub fn new(value: Vec<DateTimePeriod>, tzid: Option<TimeZoneIdentifier>) -> (r: RecurrenceDateTimes)
        ensures
            r.spec_value() == all_zoned(value@, match tzid {
                Some(t) => Some(t@),
                None => None,
            }),
            r.spec_params().spec_tzid() == tzid,
            r.spec_params().spec_data_type() == if value@.len() > 0 {
                period_type_spec(value@[0])
            } else {
                None
            },
            r.spec_params().spec_shared().iana_bytes() == Seq::<Seq<u8>>::empty(),
            r.spec_params().spec_shared().xname_bytes() == Seq::<Seq<u8>>::empty(),
    {
        let zoned = match &tzid {
            Some(t) => in_zone_all(value.as_slice(), Some(t.as_str())),
            None => in_zone_all(value.as_slice(), None),
        };
        let mut params = RDateParams::new();
        if value.len() > 0 {
            match period_type_of(&value[0]) {
                Some(d) => params.set_data_type(d),
                None => {},
            }
        }
        if let Some(t) = tzid {
            params.set_tzid(t);
        }
        RecurrenceDateTimes { value: zoned, params }
    }

    /// The property's values.
    pub fn value(&self) -> (r: &[DateTimePeriod])
        ensures
            r@ == self.spec_value(),
    {
        self.value.as_slice()
    }

    /// The property's parameters.
    pub fn params(&self) -> (r: &RDateParams)
        ensures
            *r == self.spec_params(),
    {
        &self.params
    }
}

impl Ical for RecurrenceDateTimes {
    /// The content line: `RDATE`, the parameters, `:`, the values.
    open spec fn ical(&self) -> Seq<u8> {
        "RDATE".spec_bytes() + self.spec_params().ical() + seq![COLON] + list_ical(self.spec_value())
    }

    proof fn lemma_ical_valid(&self) {
        self.spec_params().lemma_ical_valid();
        lemma_list_valid(self.spec_value());
        lemma_line_valid("RDATE", self.spec_params().ical(), list_ical(self.spec_value()));
    }

    fn write_to(&self, out: &mut Vec<u8>) {
        append_str(out, "RDATE");
        self.params.write_to(out);
        out.push(COLON);
        write_list(self.value.as_slice(), out);
        assert(out@ =~= old(out)@ + self.ical());
    }
}

/// `VALUE=DATE` for a date, nothing for a date-time.
pub open spec fn date_type_spec(x: DateOrDatetime) -> Option<ValueDataType> {
    if x is Date {
        Some(ValueDataType::Date)
    } else {
        None
    }
}

fn date_type_of(x: &DateOrDatetime) -> (r: Option<ValueDataType>)
    ensures
        r == date_type_spec(*x),
{
    match x {
        DateOrDatetime::Date(_) => Some(ValueDataType::Date),
        DateOrDatetime::DateTime(_) => None,
    }
}

/// `VALUE=DATE` for a date, `VALUE=PERIOD` for a period, nothing for a
/// date-time.
pub open spec fn period_type_spec(x: DateTimePeriod) -> Option<ValueDataType> {
    match x {
        DateTimePeriod::Date(_) => Some(ValueDataType::Date),
        DateTimePeriod::Period(_) => Some(ValueDataType::Period),
        DateTimePeriod::DateTime(_) => None,
    }
}

fn period_type_of(x: &DateTimePeriod) -> (r: Option<ValueDataType>)
    ensures
        r == period_type_spec(*x),
{
    match x {
        DateTimePeriod::Date(_) => Some(ValueDataType::Date),
        DateTimePeriod::Period(_) => Some(ValueDataType::Period),
        DateTimePeriod::DateTime(_) => None,
    }
}

/// The rule by which a component recurs (RFC 5545 §3.8.5.3), such as
/// `FREQ=DAILY;COUNT=10`.
#[derive(Debug)]
pub struct RRule {
    value: Recur,
    params: SharedParams,
}

impl RRule {
    /// The property's value.
    pub closed spec fn spec_value(&self) -> Recur {
        self.value
    }

    /// The property's parameters.
    pub closed spec fn spec_params(&self) -> SharedParams {
        self.params
    }

    /// Whether the rest of a content line, after the name, parses.
    pub open spec fn parses(v: Seq<u8>) -> bool {
        match first_unquoted(v, COLON) {
            Some(k) => SharedParams::parses(param_pieces(v.take(k))) && Recur::parses(v.skip(k + 1)),
            None => false,
        }
    }

    /// Whether this property is what the rest of a content line parses to.
    pub open spec fn describes(&self, v: Seq<u8>) -> bool {
        match first_unquoted(v, COLON) {
            Some(k) => self.spec_params().describes(param_pieces(v.take(k))) && Recur::accepts(v.skip(k + 1), self.spec_value()),
            None => false,
        }
    }

    /// Parses the rest of a content line, after the name: the parameters,
    /// `:`, the value.
    pub fn try_from(v: &[u8]) -> (r: Result<RRule, ParseError>)
        ensures
            r is Ok <==> RRule::parses(v@),
            r matches Ok(p) ==> p.describes(v@),
            first_unquoted(v@, COLON) is None ==> r matches Err(ParseError::Parameter { .. }),
    {
        let (head, tail) = split_remainder(v)?;
        let params = match SharedParams::parse(head.as_slice()) {
            Ok(p) => p,
            Err(e) => {
                return Err(ParseError::Parameters(e));
            },
        };
        let value = match Recur::try_from(tail.as_slice()) {
            Ok(x) => x,
            Err(e) => {
                return Err(ParseError::Value(e));
            },
        };
        Ok(RRule { value, params })
    }

    /// The property with no parameters.
    pub fn new(value: Recur) -> (r: RRule)
        ensures
            r.spec_value() == value,
            r.spec_params().iana_bytes() == Seq::<Seq<u8>>::empty(),
            r.spec_params().xname_bytes() == Seq::<Seq<u8>>::empty(),
    {
        RRule { value, params: SharedParams::new() }
    }

    /// The rule.
    pub fn recur(&self) -> (r: &Recur)
        ensures
            *r == self.spec_value(),
    {
        &self.value
    }

    /// The property's value.
    pub fn value(&self) -> (r: &Recur)
        ensures
            *r == self.spec_value(),
    {
        &self.value
    }

    /// The property's parameters.
    pub fn params(&self) -> (r: &SharedParams)
        ensures
            *r == self.spec_params(),
    {
        &self.params
    }
}

impl Ical for RRule {
    /// The content line: `RRULE`, the parameters, `:`, the value.
    open spec fn ical(&self) -> Seq<u8> {
        "RRULE".spec_bytes() + self.spec_params().ical() + seq![COLON] + self.spec_value().ical()
    }

    proof fn lemma_ical_valid(&self) {
        self.spec_params().lemma_ical_valid();
        self.spec_value().lemma_ical_valid();
        lemma_line_valid("RRULE", self.spec_params().ical(), self.spec_value().ical());
    }

    fn write_to(&self, out: &mut Vec<u8>) {
        append_str(out, "RRULE");
        self.params.write_to(out);
        out.push(COLON);
        self.value.write_to(out);
        assert(out@ =~= old(out)@ + self.ical());
    }
}

} // verus!
