//! Miscellaneous component properties (RFC 5545 §3.8.8).

use vstd::prelude::*;
use vstd::string::StringSliceAdditionalSpecFns;
use vstd::utf8::{encode_utf8_valid_utf8, valid_utf8};
use crate::bytes::{append_str, eq_str, first_unquoted, has_x_prefix, param_pieces, param_segments, to_upper, vec_views, x_prefixed, COLON};
use crate::params::Language;
use crate::properties::{
    keepable, kept, kept_step, last_value, lemma_kept_push, lemma_kept_unmodeled_fails, lemma_line_valid, lemma_step,
    modeled, named, param_name, param_value, seg_value, split_remainder, unmodeled,
    ParameterError, ParseError, SharedParams,
};
use crate::values::{Ical, Text};

verus! {


/// The parameters of a `REQUEST-STATUS` property.
#[derive(Debug)]
pub struct RequestStatusParams {
    shared: SharedParams,
    language: Option<Language>,
}

impl RequestStatusParams {
    /// The names of the parameters modeled here.
    pub open spec fn keys() -> Seq<Seq<u8>> {
        seq!["LANGUAGE".spec_bytes()]
    }

    /// Whether the segments `ps` parse: every unmodeled one can be kept and
    /// every modeled one holds a value of its parameter.
    pub open spec fn parses(ps: Seq<Seq<u8>>) -> bool {
        &&& kept(unmodeled(ps, RequestStatusParams::keys())) is Some
        &&& forall|i: int|
            0 <= i < ps.len() && named(#[trigger] ps[i], "LANGUAGE".spec_bytes()) ==> Language::parses(
                seg_value(ps[i]),
            )
    }

    /// The unmodeled parameters.
    pub closed spec fn spec_shared(&self) -> SharedParams {
        self.shared
    }

    /// The `LANGUAGE` parameter.
    pub closed spec fn spec_language(&self) -> Option<Language> {
        self.language
    }

    /// Whether these parameters are what the segments `ps` parse to: each
    /// modeled parameter from its last occurrence, the rest kept in order.
    pub open spec fn describes(&self, ps: Seq<Seq<u8>>) -> bool {
        &&& kept(unmodeled(ps, RequestStatusParams::keys())) == Some(
            (self.spec_shared().iana_bytes(), self.spec_shared().xname_bytes()),
        )
        &&& match last_value(ps, "LANGUAGE".spec_bytes()) {
            Some(v) => self.spec_language() matches Some(x) && Language::accepts(v, x),
            None => self.spec_language() is None,
        }
    }

    /// No parameters.
    pub fn new() -> (r: RequestStatusParams)
        ensures
            r.spec_shared().iana_bytes() == Seq::<Seq<u8>>::empty(),
            r.spec_shared().xname_bytes() == Seq::<Seq<u8>>::empty(),
            r.spec_language() is None,
    {
        RequestStatusParams { shared: SharedParams::new(), language: None }
    }

    /// The names modeled here differ from one another.
    proof fn lemma_keys_distinct()
        ensures
    {
        reveal_strlit("LANGUAGE");
    }

    /// Whether one segment can be taken: a modeled one must hold a value of
    /// its parameter, any other must be keepable.
    pub open spec fn segment_ok(seg: Seq<u8>) -> bool {
        if named(seg, "LANGUAGE".spec_bytes()) {
            Language::parses(seg_value(seg))
        } else {
            keepable(seg)
        }
    }

    /// How taking the segment `seg` changes the parameters `p` into `q`.
    pub open spec fn segment_step(p: RequestStatusParams, q: RequestStatusParams, seg: Seq<u8>) -> bool {
        &&& if named(seg, "LANGUAGE".spec_bytes()) {
            q.spec_language() matches Some(x) && Language::accepts(seg_value(seg), x)
        } else {
            q.spec_language() == p.spec_language()
        }
        &&& if modeled(seg, RequestStatusParams::keys()) {
            q.spec_shared() == p.spec_shared()
        } else {
            kept_step(p.spec_shared().iana_bytes(), p.spec_shared().xname_bytes(), seg) == Some(
                (q.spec_shared().iana_bytes(), q.spec_shared().xname_bytes()),
            )
        }
    }

    /// Takes one `NAME=VALUE` segment.
    fn take_segment(&mut self, seg: &[u8]) -> (r: Result<(), ParameterError>)
        ensures
            r is Ok <==> RequestStatusParams::segment_ok(seg@),
            r is Ok ==> RequestStatusParams::segment_step(*old(self), *final(self), seg@),
    {
        proof {
            RequestStatusParams::lemma_keys_distinct();
            assert(RequestStatusParams::keys()[0] == "LANGUAGE".spec_bytes());
        }
        let name = match param_name(seg) {
            Ok(n) => n,
            Err(e) => {
                return Err(e);
            },
        };
        let key = to_upper(name.as_slice());
        if eq_str(key.as_slice(), "LANGUAGE") {
            let value = param_value(seg)?;
            match Language::try_from(value.as_slice()) {
                Ok(x) => {
                    self.language = Some(x);
                    Ok(())
                },
                Err(e) => Err(ParameterError::Param(e)),
            }
        } else {
            assert(!modeled(seg@, RequestStatusParams::keys()));
            self.shared.absorb(seg)
        }
    }

    /// Parses a parameter list.
    pub fn parse(v: &[u8]) -> (r: Result<RequestStatusParams, ParameterError>)
        ensures
            r is Ok <==> RequestStatusParams::parses(param_pieces(v@)),
            r matches Ok(p) ==> p.describes(param_pieces(v@)),
    {
        let segs = param_segments(v);
        let ghost ps = vec_views(segs@);
        let ghost keys = RequestStatusParams::keys();
        let mut p = RequestStatusParams::new();
        let mut i: usize = 0;
        assert(ps.take(0) =~= Seq::<Seq<u8>>::empty());
        while i < segs.len()
            invariant
                i <= segs.len(),
                ps == vec_views(segs@),
                ps == param_pieces(v@),
                keys == RequestStatusParams::keys(),
                kept(unmodeled(ps.take(i as int), keys)) == Some(
                    (p.spec_shared().iana_bytes(), p.spec_shared().xname_bytes()),
                ),
                forall|j: int|
                    0 <= j < i && named(#[trigger] ps[j], "LANGUAGE".spec_bytes()) ==> Language::parses(
                        seg_value(ps[j]),
                    ),
                match last_value(ps.take(i as int), "LANGUAGE".spec_bytes()) {
                    Some(w) => p.spec_language() matches Some(x) && Language::accepts(w, x),
                    None => p.spec_language() is None,
                },
            decreases segs.len() - i,
        {
            let seg = segs[i].as_slice();
            proof {
                lemma_step(ps, keys, i as int);
                assert(seg@ == ps[i as int]);
                RequestStatusParams::lemma_keys_distinct();
                assert(keys[0] == "LANGUAGE".spec_bytes());
                lemma_kept_push(unmodeled(ps.take(i as int), keys), ps[i as int]);
            }
            match p.take_segment(seg) {
                Ok(()) => {},
                Err(e) => {
                    proof {
                        if !modeled(ps[i as int], keys) {
                            lemma_kept_unmodeled_fails(ps, keys, i + 1, ps.len() as int);
                        }
                        assert(ps.take(ps.len() as int) =~= ps);
                    }
                    return Err(e);
                },
            }
            i += 1;
        }
        assert(ps.take(segs.len() as int) =~= ps);
        Ok(p)
    }

    /// The unmodeled parameters.
    pub fn shared(&self) -> (r: &SharedParams)
        ensures
            *r == self.spec_shared(),
    {
        &self.shared
    }

    /// The `LANGUAGE` parameter.
    pub fn language(&self) -> (r: Option<&Language>)
        ensures
            match r {
                Some(x) => self.spec_language() == Some(*x),
                None => self.spec_language() is None,
            },
    {
        self.language.as_ref()
    }

    /// Sets the `LANGUAGE` parameter.
    pub fn set_language(&mut self, x: Language)
        ensures
            final(self).spec_language() == Some(x),
            final(self).spec_shared() == old(self).spec_shared(),
    {
        self.language = Some(x);
    }

    /// How the parameters are written: each modeled one that is set, then
    /// the kept ones.
    pub open spec fn ical(&self) -> Seq<u8> {
        self.language_text() + self.spec_shared().ical()
    }

    /// The written parameters are valid UTF-8.
    pub proof fn lemma_ical_valid(&self)
        ensures
            valid_utf8(self.ical()),
    {
        self.spec_shared().lemma_ical_valid();
        let mut acc: Seq<u8> = seq![];
        assert(valid_utf8(acc));
        let part = self.language_text();
        if let Some(x) = self.spec_language() {
            x.lemma_ical_valid();
            vstd::utf8::encode_utf8_valid_utf8(";LANGUAGE="@);
            vstd::utf8::valid_utf8_concat(";LANGUAGE=".spec_bytes(), x.ical());
        }
        vstd::utf8::valid_utf8_concat(acc, part);
        acc = acc + part;
        vstd::utf8::valid_utf8_concat(acc, self.spec_shared().ical());
        assert(acc + self.spec_shared().ical() =~= self.ical());
    }

    /// The `LANGUAGE` parameter as written, when it is set.
    pub open spec fn language_text(&self) -> Seq<u8> {
        match self.spec_language() {
            Some(x) => ";LANGUAGE=".spec_bytes() + x.ical(),
            None => seq![],
        }
    }

    fn write_language(&self, out: &mut Vec<u8>)
        ensures
            final(out)@ == old(out)@ + self.language_text(),
    {
        if let Some(x) = &self.language {
            append_str(out, ";LANGUAGE=");
            x.write_to(out);
        }
    }

    /// Appends the parameters as written.
    pub fn write_to(&self, out: &mut Vec<u8>)
        ensures
            final(out)@ == old(out)@ + self.ical(),
    {
        self.write_language(out);
        self.shared.write_to(out);
        assert(out@ =~= old(out)@ + self.ical());
    }
}

/// The status code returned for a scheduling request (RFC 5545 §3.8.8.3):
/// `statcode;statdesc[;extdata]`, held decoded and written back as it is,
/// without escapes.
#[derive(Debug)]
pub struct RequestStatus {
    value: Text,
    params: RequestStatusParams,
}

impl RequestStatus {
    /// The property's value.
    pub closed spec fn spec_value(&self) -> Text {
        self.value
    }

    /// The property's parameters.
    pub closed spec fn spec_params(&self) -> RequestStatusParams {
        self.params
    }

    /// Whether the rest of a content line, after the name, parses.
    pub open spec fn parses(v: Seq<u8>) -> bool {
        match first_unquoted(v, COLON) {
            Some(k) => RequestStatusParams::parses(param_pieces(v.take(k))) && Text::parses(v.skip(k + 1)),
            None => false,
        }
    }

    /// Whether this property is what the rest of a content line parses to.
    pub open spec fn describes(&self, v: Seq<u8>) -> bool {
        match first_unquoted(v, COLON) {
            Some(k) => self.spec_params().describes(param_pieces(v.take(k))) && Text::accepts(v.skip(k + 1), self.spec_value()),
            None => false,
        }
    }

    /// Parses the rest of a content line, after the name: the parameters,
    /// `:`, the value.
    pub fn try_from(v: &[u8]) -> (r: Result<RequestStatus, ParseError>)
        ensures
            r is Ok <==> RequestStatus::parses(v@),
            r matches Ok(p) ==> p.describes(v@),
            first_unquoted(v@, COLON) is None ==> r matches Err(ParseError::Parameter { .. }),
    {
        let (head, tail) = split_remainder(v)?;
        let params = match RequestStatusParams::parse(head.as_slice()) {
            Ok(p) => p,
            Err(e) => {
                return Err(ParseError::Parameters(e));
            },
        };
        let value = match Text::try_from(tail.as_slice()) {
            Ok(x) => x,
            Err(e) => {
                return Err(ParseError::Value(e));
            },
        };
        Ok(RequestStatus { value, params })
    }

    /// The property's value.
    pub fn value(&self) -> (r: &Text)
        ensures
            *r == self.spec_value(),
    {
        &self.value
    }

    /// The property's parameters.
    pub fn params(&self) -> (r: &RequestStatusParams)
        ensures
            *r == self.spec_params(),
    {
        &self.params
    }
}

impl Ical for RequestStatus {
    /// The content line: `REQUEST-STATUS`, the parameters, `:`, the value.
    open spec fn ical(&self) -> Seq<u8> {
        "REQUEST-STATUS".spec_bytes() + self.spec_params().ical() + seq![COLON] + self.spec_value().bytes()
    }

    proof fn lemma_ical_valid(&self) {
        self.spec_params().lemma_ical_valid();
        encode_utf8_valid_utf8(self.spec_value()@);
        lemma_line_valid("REQUEST-STATUS", self.spec_params().ical(), self.spec_value().bytes());
    }

    fn write_to(&self, out: &mut Vec<u8>) {
        append_str(out, "REQUEST-STATUS");
        self.params.write_to(out);
        out.push(COLON);
        self.value.write_raw(out);
        assert(out@ =~= old(out)@ + self.ical());
    }
}

/// Builds a [`RequestStatus`].
#[derive(Debug)]
pub struct RequestStatusBuilder {
    value: Text,
    language: Option<Language>,
}

impl RequestStatusBuilder {
    /// The value being built.
    pub closed spec fn spec_value(&self) -> Text {
        self.value
    }

    /// The `LANGUAGE` set so far.
    pub closed spec fn spec_language(&self) -> Option<Language> {
        self.language
    }

    /// A builder for `value` (`statcode;statdesc[;extdata]`), with no
    /// parameters.
    pub fn new(value: Text) -> (r: RequestStatusBuilder)
        ensures
            r.spec_value() == value,
            r.spec_language() is None,
    {
        RequestStatusBuilder { value, language: None }
    }

    /// Sets `LANGUAGE`.
    pub fn language(self, language: Language) -> (r: RequestStatusBuilder)
        ensures
            r.spec_value() == self.spec_value(),
            r.spec_language() == Some(language),
    {
        RequestStatusBuilder { value: self.value, language: Some(language) }
    }

    /// The property.
    pub fn build(self) -> (r: RequestStatus)
        ensures
            r.spec_value() == self.spec_value(),
            r.spec_params().spec_language() == self.spec_language(),
            r.spec_params().spec_shared().iana_bytes() == Seq::<Seq<u8>>::empty(),
            r.spec_params().spec_shared().xname_bytes() == Seq::<Seq<u8>>::empty(),
    {
        let mut params = RequestStatusParams::new();
        if let Some(l) = self.language {
            params.set_language(l);
        }
        RequestStatus { value: self.value, params }
    }
}

} // verus!
