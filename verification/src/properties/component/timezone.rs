//! Time zone component properties (RFC 5545 §3.8.3).

use vstd::prelude::*;
use vstd::string::StringSliceAdditionalSpecFns;
use vstd::utf8::valid_utf8;
use crate::bytes::{append_str, eq_str, first_unquoted, has_x_prefix, param_pieces, param_segments, to_upper, vec_views, x_prefixed, COLON};
use crate::params::Language;
use crate::properties::{
    keepable, kept, kept_step, last_value, lemma_kept_push, lemma_kept_unmodeled_fails, lemma_line_valid, lemma_step,
    modeled, named, param_name, param_value, seg_value, split_remainder, unmodeled,
    ParameterError, ParseError, SharedParams,
};
use crate::values::{Ical, Text, Uri};
use crate::values::offset::UtcOffset;

verus! {


/// The identifier of a `VTIMEZONE` component (RFC 5545 §3.8.3.1), such as
/// `America/New_York`.
#[derive(Debug)]
pub struct TimeZoneIdentifier {
    value: Text,
    params: SharedParams,
}

impl TimeZoneIdentifier {
    /// The property's value.
    pub closed spec fn spec_value(&self) -> Text {
        self.value
    }

    /// The property's parameters.
    pub closed spec fn spec_params(&self) -> SharedParams {
        self.params
    }

    /// Whether the rest of a content line, after the name, parses.
    pub open spec fn parses(v: Seq<u8>) -> bool {
        match first_unquoted(v, COLON) {
            Some(k) => SharedParams::parses(param_pieces(v.take(k))) && Text::parses(v.skip(k + 1)),
            None => false,
        }
    }

    /// Whether this property is what the rest of a content line parses to.
    pub open spec fn describes(&self, v: Seq<u8>) -> bool {
        match first_unquoted(v, COLON) {
            Some(k) => self.spec_params().describes(param_pieces(v.take(k))) && Text::accepts(v.skip(k + 1), self.spec_value()),
            None => false,
        }
    }

    /// Parses the rest of a content line, after the name: the parameters,
    /// `:`, the value.
    pub fn try_from(v: &[u8]) -> (r: Result<TimeZoneIdentifier, ParseError>)
        ensures
            r is Ok <==> TimeZoneIdentifier::parses(v@),
            r matches Ok(p) ==> p.describes(v@),
            first_unquoted(v@, COLON) is None ==> r matches Err(ParseError::Parameter { .. }),
    {
        let (head, tail) = split_remainder(v)?;
        let params = match SharedParams::parse(head.as_slice()) {
            Ok(p) => p,
            Err(e) => {
                return Err(ParseError::Parameters(e));
            },
        };
        let value = match Text::try_from(tail.as_slice()) {
            Ok(x) => x,
            Err(e) => {
                return Err(ParseError::Value(e));
            },
        };
        Ok(TimeZoneIdentifier { value, params })
    }

    /// The property with no parameters.
    pub fn new(value: Text) -> (r: TimeZoneIdentifier)
        ensures
            r.spec_value() == value,
            r.spec_params().iana_bytes() == Seq::<Seq<u8>>::empty(),
            r.spec_params().xname_bytes() == Seq::<Seq<u8>>::empty(),
    {
        TimeZoneIdentifier { value, params: SharedParams::new() }
    }

    /// The identifier's text.
    pub fn as_str(&self) -> (r: &str)
        ensures
            r@ == self.spec_value()@,
    {
        self.value.as_str()
    }

    /// The property's value.
    pub fn value(&self) -> (r: &Text)
        ensures
            *r == self.spec_value(),
    {
        &self.value
    }

    /// The property's parameters.
    pub fn params(&self) -> (r: &SharedParams)
        ensures
            *r == self.spec_params(),
    {
        &self.params
    }
}

impl Ical for TimeZoneIdentifier {
    /// The content line: `TZID`, the parameters, `:`, the value.
    open spec fn ical(&self) -> Seq<u8> {
        "TZID".spec_bytes() + self.spec_params().ical() + seq![COLON] + self.spec_value().ical()
    }

    proof fn lemma_ical_valid(&self) {
        self.spec_params().lemma_ical_valid();
        self.spec_value().lemma_ical_valid();
        lemma_line_valid("TZID", self.spec_params().ical(), self.spec_value().ical());
    }

    fn write_to(&self, out: &mut Vec<u8>) {
        append_str(out, "TZID");
        self.params.write_to(out);
        out.push(COLON);
        self.value.write_to(out);
        assert(out@ =~= old(out)@ + self.ical());
    }
}

/// The parameters of a `TZNAME` property.
#[derive(Debug)]
pub struct TZNameParams {
    shared: SharedParams,
    language: Option<Language>,
}

impl TZNameParams {
    /// The names of the parameters modeled here.
    pub open spec fn keys() -> Seq<Seq<u8>> {
        seq!["LANGUAGE".spec_bytes()]
    }

    /// Whether the segments `ps` parse: every unmodeled one can be kept and
    /// every modeled one holds a value of its parameter.
    pub open spec fn parses(ps: Seq<Seq<u8>>) -> bool {
        &&& kept(unmodeled(ps, TZNameParams::keys())) is Some
        &&& forall|i: int|
            0 <= i < ps.len() && named(#[trigger] ps[i], "LANGUAGE".spec_bytes()) ==> Language::parses(
                seg_value(ps[i]),
            )
    }

    /// The unmodeled parameters.
    pub closed spec fn spec_shared(&self) -> SharedParams {
        self.shared
    }

    /// The `LANGUAGE` parameter.
    pub closed spec fn spec_language(&self) -> Option<Language> {
        self.language
    }

    /// Whether these parameters are what the segments `ps` parse to: each
    /// modeled parameter from its last occurrence, the rest kept in order.
    pub open spec fn describes(&self, ps: Seq<Seq<u8>>) -> bool {
        &&& kept(unmodeled(ps, TZNameParams::keys())) == Some(
            (self.spec_shared().iana_bytes(), self.spec_shared().xname_bytes()),
        )
        &&& match last_value(ps, "LANGUAGE".spec_bytes()) {
            Some(v) => self.spec_language() matches Some(x) && Language::accepts(v, x),
            None => self.spec_language() is None,
        }
    }

    /// No parameters.
    pub fn new() -> (r: TZNameParams)
        ensures
            r.spec_shared().iana_bytes() == Seq::<Seq<u8>>::empty(),
            r.spec_shared().xname_bytes() == Seq::<Seq<u8>>::empty(),
            r.spec_language() is None,
    {
        TZNameParams { shared: SharedParams::new(), language: None }
    }

    /// The names modeled here differ from one another.
    proof fn lemma_keys_distinct()
        ensures
    {
        reveal_strlit("LANGUAGE");
    }

    /// Whether one segment can be taken: a modeled one must hold a value of
    /// its parameter, any other must be keepable.
    pub open spec fn segment_ok(seg: Seq<u8>) -> bool {
        if named(seg, "LANGUAGE".spec_bytes()) {
            Language::parses(seg_value(seg))
        } else {
            keepable(seg)
        }
    }

    /// How taking the segment `seg` changes the parameters `p` into `q`.
    pub open spec fn segment_step(p: TZNameParams, q: TZNameParams, seg: Seq<u8>) -> bool {
        &&& if named(seg, "LANGUAGE".spec_bytes()) {
            q.spec_language() matches Some(x) && Language::accepts(seg_value(seg), x)
        } else {
            q.spec_language() == p.spec_language()
        }
        &&& if modeled(seg, TZNameParams::keys()) {
            q.spec_shared() == p.spec_shared()
        } else {
            kept_step(p.spec_shared().iana_bytes(), p.spec_shared().xname_bytes(), seg) == Some(
                (q.spec_shared().iana_bytes(), q.spec_shared().xname_bytes()),
            )
        }
    }

    /// Takes one `NAME=VALUE` segment.
    fn take_segment(&mut self, seg: &[u8]) -> (r: Result<(), ParameterError>)
        ensures
            r is Ok <==> TZNameParams::segment_ok(seg@),
            r is Ok ==> TZNameParams::segment_step(*old(self), *final(self), seg@),
    {
        proof {
            TZNameParams::lemma_keys_distinct();
            assert(TZNameParams::keys()[0] == "LANGUAGE".spec_bytes());
        }
        let name = match param_name(seg) {
            Ok(n) => n,
            Err(e) => {
                return Err(e);
            },
        };
        let key = to_upper(name.as_slice());
        if eq_str(key.as_slice(), "LANGUAGE") {
            let value = param_value(seg)?;
            match Language::try_from(value.as_slice()) {
                Ok(x) => {
                    self.language = Some(x);
                    Ok(())
                },
                Err(e) => Err(ParameterError::Param(e)),
            }
        } else {
            assert(!modeled(seg@, TZNameParams::keys()));
            self.shared.absorb(seg)
        }
    }

    /// Parses a parameter list.
    pub fn parse(v: &[u8]) -> (r: Result<TZNameParams, ParameterError>)
        ensures
            r is Ok <==> TZNameParams::parses(param_pieces(v@)),
            r matches Ok(p) ==> p.describes(param_pieces(v@)),
    {
        let segs = param_segments(v);
        let ghost ps = vec_views(segs@);
        let ghost keys = TZNameParams::keys();
        let mut p = TZNameParams::new();
        let mut i: usize = 0;
        assert(ps.take(0) =~= Seq::<Seq<u8>>::empty());
        while i < segs.len()
            invariant
                i <= segs.len(),
                ps == vec_views(segs@),
                ps == param_pieces(v@),
                keys == TZNameParams::keys(),
                kept(unmodeled(ps.take(i as int), keys)) == Some(
                    (p.spec_shared().iana_bytes(), p.spec_shared().xname_bytes()),
                ),
                forall|j: int|
                    0 <= j < i && named(#[trigger] ps[j], "LANGUAGE".spec_bytes()) ==> Language::parses(
                        seg_value(ps[j]),
                    ),
                match last_value(ps.take(i as int), "LANGUAGE".spec_bytes()) {
                    Some(w) => p.spec_language() matches Some(x) && Language::accepts(w, x),
                    None => p.spec_language() is None,
                },
            decreases segs.len() - i,
        {
            let seg = segs[i].as_slice();
            proof {
                lemma_step(ps, keys, i as int);
                assert(seg@ == ps[i as int]);
                TZNameParams::lemma_keys_distinct();
                assert(keys[0] == "LANGUAGE".spec_bytes());
                lemma_kept_push(unmodeled(ps.take(i as int), keys), ps[i as int]);
            }
            match p.take_segment(seg) {
                Ok(()) => {},
                Err(e) => {
                    proof {
                        if !modeled(ps[i as int], keys) {
                            lemma_kept_unmodeled_fails(ps, keys, i + 1, ps.len() as int);
                        }
                        assert(ps.take(ps.len() as int) =~= ps);
                    }
                    return Err(e);
                },
            }
            i += 1;
        }
        assert(ps.take(segs.len() as int) =~= ps);
        Ok(p)
    }

    /// The unmodeled parameters.
    pub fn shared(&self) -> (r: &SharedParams)
        ensures
            *r == self.spec_shared(),
    {
        &self.shared
    }

    /// The `LANGUAGE` parameter.
    pub fn language(&self) -> (r: Option<&Language>)
        ensures
            match r {
                Some(x) => self.spec_language() == Some(*x),
                None => self.spec_language() is None,
            },
    {
        self.language.as_ref()
    }

    /// Sets the `LANGUAGE` parameter.
    pub fn set_language(&mut self, x: Language)
        ensures
            final(self).spec_language() == Some(x),
            final(self).spec_shared() == old(self).spec_shared(),
    {
        self.language = Some(x);
    }

    /// How the parameters are written: each modeled one that is set, then
    /// the kept ones.
    pub open spec fn ical(&self) -> Seq<u8> {
        self.language_text() + self.spec_shared().ical()
    }

    /// The written parameters are valid UTF-8.
    pub proof fn lemma_ical_valid(&self)
        ensures
            valid_utf8(self.ical()),
    {
        self.spec_shared().lemma_ical_valid();
        let mut acc: Seq<u8> = seq![];
        assert(valid_utf8(acc));
        let part = self.language_text();
        if let Some(x) = self.spec_language() {
            x.lemma_ical_valid();
            vstd::utf8::encode_utf8_valid_utf8(";LANGUAGE="@);
            vstd::utf8::valid_utf8_concat(";LANGUAGE=".spec_bytes(), x.ical());
        }
        vstd::utf8::valid_utf8_concat(acc, part);
        acc = acc + part;
        vstd::utf8::valid_utf8_concat(acc, self.spec_shared().ical());
        assert(acc + self.spec_shared().ical() =~= self.ical());
    }

    /// The `LANGUAGE` parameter as written, when it is set.
    pub open spec fn language_text(&self) -> Seq<u8> {
        match self.spec_language() {
            Some(x) => ";LANGUAGE=".spec_bytes() + x.ical(),
            None => seq![],
        }
    }

    fn write_language(&self, out: &mut Vec<u8>)
        ensures
            final(out)@ == old(out)@ + self.language_text(),
    {
        if let Some(x) = &self.language {
            append_str(out, ";LANGUAGE=");
            x.write_to(out);
        }
    }

    /// Appends the parameters as written.
    pub fn write_to(&self, out: &mut Vec<u8>)
        ensures
            final(out)@ == old(out)@ + self.ical(),
    {
        self.write_language(out);
        self.shared.write_to(out);
        assert(out@ =~= old(out)@ + self.ical());
    }
}

/// The customary name of a time zone observance (RFC 5545 §3.8.3.2), such
/// as `EST`.
#[derive(Debug)]
pub struct TimeZoneName {
    value: Text,
    params: TZNameParams,
}

impl TimeZoneName {
    /// The property's value.
    pub closed spec fn spec_value(&self) -> Text {
        self.value
    }

    /// The property's parameters.
    pub closed spec fn spec_params(&self) -> TZNameParams {
        self.params
    }

    /// Whether the rest of a content line, after the name, parses.
    pub open spec fn parses(v: Seq<u8>) -> bool {
        match first_unquoted(v, COLON) {
            Some(k) => TZNameParams::parses(param_pieces(v.take(k))) && Text::parses(v.skip(k + 1)),
            None => false,
        }
    }

    /// Whether this property is what the rest of a content line parses to.
    pub open spec fn describes(&self, v: Seq<u8>) -> bool {
        match first_unquoted(v, COLON) {
            Some(k) => self.spec_params().describes(param_pieces(v.take(k))) && Text::accepts(v.skip(k + 1), self.spec_value()),
            None => false,
        }
    }

    /// Parses the rest of a content line, after the name: the parameters,
    /// `:`, the value.
    pub fn try_from(v: &[u8]) -> (r: Result<TimeZoneName, ParseError>)
        ensures
            r is Ok <==> TimeZoneName::parses(v@),
            r matches Ok(p) ==> p.describes(v@),
            first_unquoted(v@, COLON) is None ==> r matches Err(ParseError::Parameter { .. }),
    {
        let (head, tail) = split_remainder(v)?;
        let params = match TZNameParams::parse(head.as_slice()) {
            Ok(p) => p,
            Err(e) => {
                return Err(ParseError::Parameters(e));
            },
        };
        let value = match Text::try_from(tail.as_slice()) {
            Ok(x) => x,
            Err(e) => {
                return Err(ParseError::Value(e));
            },
        };
        Ok(TimeZoneName { value, params })
    }

    /// The property with `value` and, optionally, a `LANGUAGE` parameter.
    pub fn new(value: Text, language: Option<Language>) -> (r: TimeZoneName)
        ensures
            r.spec_value() == value,
            r.spec_params().spec_language() == language,
            r.spec_params().spec_shared().iana_bytes() == Seq::<Seq<u8>>::empty(),
            r.spec_params().spec_shared().xname_bytes() == Seq::<Seq<u8>>::empty(),
    {
        let mut params = TZNameParams::new();
        if let Some(l) = language {
            params.set_language(l);
        }
        TimeZoneName { value, params }
    }

    /// The property's value.
    pub fn value(&self) -> (r: &Text)
        ensures
            *r == self.spec_value(),
    {
        &self.value
    }

    /// The property's parameters.
    pub fn params(&self) -> (r: &TZNameParams)
        ensures
            *r == self.spec_params(),
    {
        &self.params
    }
}

impl Ical for TimeZoneName {
    /// The content line: `TZNAME`, the parameters, `:`, the value.
    open spec fn ical(&self) -> Seq<u8> {
        "TZNAME".spec_bytes() + self.spec_params().ical() + seq![COLON] + self.spec_value().ical()
    }

    proof fn lemma_ical_valid(&self) {
        self.spec_params().lemma_ical_valid();
        self.spec_value().lemma_ical_valid();
        lemma_line_valid("TZNAME", self.spec_params().ical(), self.spec_value().ical());
    }

    fn write_to(&self, out: &mut Vec<u8>) {
        append_str(out, "TZNAME");
        self.params.write_to(out);
        out.push(COLON);
        self.value.write_to(out);
        assert(out@ =~= old(out)@ + self.ical());
    }
}

/// The UTC offset in use before a time zone observance begins (RFC 5545
/// §3.8.3.3).
#[derive(Debug)]
pub struct TimeZoneOffsetFrom {
    value: UtcOffset,
    params: SharedParams,
}

impl TimeZoneOffsetFrom {
    /// The property's value.
    pub closed spec fn spec_value(&self) -> UtcOffset {
        self.value
    }

    /// The property's parameters.
    pub closed spec fn spec_params(&self) -> SharedParams {
        self.params
    }

    /// Whether the rest of a content line, after the name, parses.
    pub open spec fn parses(v: Seq<u8>) -> bool {
        match first_unquoted(v, COLON) {
            Some(k) => SharedParams::parses(param_pieces(v.take(k))) && UtcOffset::parses(v.skip(k + 1)),
            None => false,
        }
    }

    /// Whether this property is what the rest of a content line parses to.
    pub open spec fn describes(&self, v: Seq<u8>) -> bool {
        match first_unquoted(v, COLON) {
            Some(k) => self.spec_params().describes(param_pieces(v.take(k))) && UtcOffset::accepts(v.skip(k + 1), self.spec_value()),
            None => false,
        }
    }

    /// Parses the rest of a content line, after the name: the parameters,
    /// `:`, the value.
    pub fn try_from(v: &[u8]) -> (r: Result<TimeZoneOffsetFrom, ParseError>)
        ensures
            r is Ok <==> TimeZoneOffsetFrom::parses(v@),
            r matches Ok(p) ==> p.describes(v@),
            first_unquoted(v@, COLON) is None ==> r matches Err(ParseError::Parameter { .. }),
    {
        let (head, tail) = split_remainder(v)?;
        let params = match SharedParams::parse(head.as_slice()) {
            Ok(p) => p,
            Err(e) => {
                return Err(ParseError::Parameters(e));
            },
        };
        let value = match UtcOffset::try_from(tail.as_slice()) {
            Ok(x) => x,
            Err(e) => {
                return Err(ParseError::Value(e));
            },
        };
        Ok(TimeZoneOffsetFrom { value, params })
    }

    /// The property with no parameters.
    pub fn new(value: UtcOffset) -> (r: TimeZoneOffsetFrom)
        ensures
            r.spec_value() == value,
            r.spec_params().iana_bytes() == Seq::<Seq<u8>>::empty(),
            r.spec_params().xname_bytes() == Seq::<Seq<u8>>::empty(),
    {
        TimeZoneOffsetFrom { value, params: SharedParams::new() }
    }

    /// The property's value.
    pub fn value(&self) -> (r: &UtcOffset)
        ensures
            *r == self.spec_value(),
    {
        &self.value
    }

    /// The property's parameters.
    pub fn params(&self) -> (r: &SharedParams)
        ensures
            *r == self.spec_params(),
    {
        &self.params
    }
}

impl Ical for TimeZoneOffsetFrom {
    /// The content line: `TZOFFSETFROM`, the parameters, `:`, the value.
    open spec fn ical(&self) -> Seq<u8> {
        "TZOFFSETFROM".spec_bytes() + self.spec_params().ical() + seq![COLON] + self.spec_value().ical()
    }

    proof fn lemma_ical_valid(&self) {
        self.spec_params().lemma_ical_valid();
        self.spec_value().lemma_ical_valid();
        lemma_line_valid("TZOFFSETFROM", self.spec_params().ical(), self.spec_value().ical());
    }

    fn write_to(&self, out: &mut Vec<u8>) {
        append_str(out, "TZOFFSETFROM");
        self.params.write_to(out);
        out.push(COLON);
        self.value.write_to(out);
        assert(out@ =~= old(out)@ + self.ical());
    }
}

/// The UTC offset in use during a time zone observance (RFC 5545
/// §3.8.3.4).
#[derive(Debug)]
pub struct TimeZoneOffsetTo {
    value: UtcOffset,
    params: SharedParams,
}

impl TimeZoneOffsetTo {
    /// The property's value.
    pub closed spec fn spec_value(&self) -> UtcOffset {
        self.value
    }

    /// The property's parameters.
    pub closed spec fn spec_params(&self) -> SharedParams {
        self.params
    }

    /// Whether the rest of a content line, after the name, parses.
    pub open spec fn parses(v: Seq<u8>) -> bool {
        match first_unquoted(v, COLON) {
            Some(k) => SharedParams::parses(param_pieces(v.take(k))) && UtcOffset::parses(v.skip(k + 1)),
            None => false,
        }
    }

    /// Whether this property is what the rest of a content line parses to.
    pub open spec fn describes(&self, v: Seq<u8>) -> bool {
        match first_unquoted(v, COLON) {
            Some(k) => self.spec_params().describes(param_pieces(v.take(k))) && UtcOffset::accepts(v.skip(k + 1), self.spec_value()),
            None => false,
        }
    }

    /// Parses the rest of a content line, after the name: the parameters,
    /// `:`, the value.
    pub fn try_from(v: &[u8]) -> (r: Result<TimeZoneOffsetTo, ParseError>)
        ensures
            r is Ok <==> TimeZoneOffsetTo::parses(v@),
            r matches Ok(p) ==> p.describes(v@),
            first_unquoted(v@, COLON) is None ==> r matches Err(ParseError::Parameter { .. }),
    {
        let (head, tail) = split_remainder(v)?;
        let params = match SharedParams::parse(head.as_slice()) {
            Ok(p) => p,
            Err(e) => {
                return Err(ParseError::Parameters(e));
            },
        };
        let value = match UtcOffset::try_from(tail.as_slice()) {
            Ok(x) => x,
            Err(e) => {
                return Err(ParseError::Value(e));
            },
        };
        Ok(TimeZoneOffsetTo { value, params })
    }

    /// The property with no parameters.
    pub fn new(value: UtcOffset) -> (r: TimeZoneOffsetTo)
        ensures
            r.spec_value() == value,
            r.spec_params().iana_bytes() == Seq::<Seq<u8>>::empty(),
            r.spec_params().xname_bytes() == Seq::<Seq<u8>>::empty(),
    {
        TimeZoneOffsetTo { value, params: SharedParams::new() }
    }

    /// The property's value.
    pub fn value(&self) -> (r: &UtcOffset)
        ensures
            *r == self.spec_value(),
    {
        &self.value
    }

    /// The property's parameters.
    pub fn params(&self) -> (r: &SharedParams)
        ensures
            *r == self.spec_params(),
    {
        &self.params
    }
}

impl Ical for TimeZoneOffsetTo {
    /// The content line: `TZOFFSETTO`, the parameters, `:`, the value.
    open spec fn ical(&self) -> Seq<u8> {
        "TZOFFSETTO".spec_bytes() + self.spec_params().ical() + seq![COLON] + self.spec_value().ical()
    }

    proof fn lemma_ical_valid(&self) {
        self.spec_params().lemma_ical_valid();
        self.spec_value().lemma_ical_valid();
        lemma_line_valid("TZOFFSETTO", self.spec_params().ical(), self.spec_value().ical());
    }

    fn write_to(&self, out: &mut Vec<u8>) {
        append_str(out, "TZOFFSETTO");
        self.params.write_to(out);
        out.push(COLON);
        self.value.write_to(out);
        assert(out@ =~= old(out)@ + self.ical());
    }
}

/// Where an up-to-date version of a `VTIMEZONE` can be retrieved (RFC 5545
/// §3.8.3.5).
#[derive(Debug)]
pub struct TimeZoneUrl {
    value: Uri,
    params: SharedParams,
}

impl TimeZoneUrl {
    /// The property's value.
    pub closed spec fn spec_value(&self) -> Uri {
        self.value
    }

    /// The property's parameters.
    pub closed spec fn spec_params(&self) -> SharedParams {
        self.params
    }

    /// Whether the rest of a content line, after the name, parses.
    pub open spec fn parses(v: Seq<u8>) -> bool {
        match first_unquoted(v, COLON) {
            Some(k) => SharedParams::parses(param_pieces(v.take(k))) && Uri::parses(v.skip(k + 1)),
            None => false,
        }
    }

    /// Whether this property is what the rest of a content line parses to.
    pub open spec fn describes(&self, v: Seq<u8>) -> bool {
        match first_unquoted(v, COLON) {
            Some(k) => self.spec_params().describes(param_pieces(v.take(k))) && Uri::accepts(v.skip(k + 1), self.spec_value()),
            None => false,
        }
    }

    /// Parses the rest of a content line, after the name: the parameters,
    /// `:`, the value.
    pub fn try_from(v: &[u8]) -> (r: Result<TimeZoneUrl, ParseError>)
        ensures
            r is Ok <==> TimeZoneUrl::parses(v@),
            r matches Ok(p) ==> p.describes(v@),
            first_unquoted(v@, COLON) is None ==> r matches Err(ParseError::Parameter { .. }),
    {
        let (head, tail) = split_remainder(v)?;
        let params = match SharedParams::parse(head.as_slice()) {
            Ok(p) => p,
            Err(e) => {
                return Err(ParseError::Parameters(e));
            },
        };
        let value = match Uri::try_from(tail.as_slice()) {
            Ok(x) => x,
            Err(e) => {
                return Err(ParseError::Value(e));
            },
        };
        Ok(TimeZoneUrl { value, params })
    }

    /// The property with no parameters.
    pub fn new(value: Uri) -> (r: TimeZoneUrl)
        ensures
            r.spec_value() == value,
            r.spec_params().iana_bytes() == Seq::<Seq<u8>>::empty(),
            r.spec_params().xname_bytes() == Seq::<Seq<u8>>::empty(),
    {
        TimeZoneUrl { value, params: SharedParams::new() }
    }

    /// The property's value.
    pub fn value(&self) -> (r: &Uri)
        ensures
            *r == self.spec_value(),
    {
        &self.value
    }

    /// The property's parameters.
    pub fn params(&self) -> (r: &SharedParams)
        ensures
            *r == self.spec_params(),
    {
        &self.params
    }
}

impl Ical for TimeZoneUrl {
    /// The content line: `TZURL`, the parameters, `:`, the value.
    open spec fn ical(&self) -> Seq<u8> {
        "TZURL".spec_bytes() + self.spec_params().ical() + seq![COLON] + self.spec_value().ical()
    }

    proof fn lemma_ical_valid(&self) {
        self.spec_params().lemma_ical_valid();
        self.spec_value().lemma_ical_valid();
        lemma_line_valid("TZURL", self.spec_params().ical(), self.spec_value().ical());
    }

    fn write_to(&self, out: &mut Vec<u8>) {
        append_str(out, "TZURL");
        self.params.write_to(out);
        out.push(COLON);
        self.value.write_to(out);
        assert(out@ =~= old(out)@ + self.ical());
    }
}

} // verus!
