//! Descriptive component properties (RFC 5545 §3.8.1, RFC 7986 §5).

use vstd::prelude::*;
use vstd::string::StringSliceAdditionalSpecFns;
use crate::bytes::{append_str, eq_str, first_unquoted, has_x_prefix, lemma_str_bytes_differ, param_pieces, param_segments, to_upper, upper, vec_views, x_prefixed, COLON};
use crate::params::{
    Altrep, Encoding, Feature, Fmttype, ImageDisplay, Label, Language, ValueDataType,
};
use crate::properties::{
    keepable, kept, kept_step, last_value, lemma_kept_push, lemma_kept_unmodeled_fails, lemma_line_valid, lemma_step,
    modeled, named, param_name, param_value, seg_value, split_remainder, unmodeled,
    AltrepLanguageParams, ParameterError, ParseError, PropertyError, SharedParams,
};
use crate::values::{
    integer_of, lemma_text_list_valid, malformed_value, parse_text_list, text_list_accepts,
    text_list_ical, text_list_parses, unescape_text, write_text_list, Binary, Ical, Integer,
    Text, Uri, ValueError,
};
use vstd::utf8::valid_utf8;
use crate::values::duration::Duration as DurationValue;
use crate::bytes::{copy_range, find_byte, first_byte, SEMICOLON};
use crate::values::decimal::{float_of, float_text, Float, Pair};

verus! {

/// The value of an `ATTACH` or `IMAGE` property: a URI, or inline BASE64
/// data. A value that parses as a URI is taken as one.
#[derive(Debug)]
pub enum AttachmentValue {
    /// A reference to the content.
    Uri(Uri),
    /// The content itself.
    Binary(Binary),
}

impl AttachmentValue {
    /// Whether `v` parses: as a URI, or else as BASE64.
    pub open spec fn parses(v: Seq<u8>) -> bool {
        Uri::parses(v) || Binary::parses(v)
    }

    /// Whether `x` is what `v` parses to.
    pub open spec fn accepts(v: Seq<u8>, x: AttachmentValue) -> bool {
        if Uri::parses(v) {
            x matches AttachmentValue::Uri(u) && Uri::accepts(v, u)
        } else {
            x matches AttachmentValue::Binary(b) && Binary::accepts(v, b)
        }
    }

    /// Parses the value: a URI if it is one, BASE64 data otherwise.
    pub fn try_from(v: &[u8]) -> (r: Result<AttachmentValue, ValueError>)
        ensures
            r is Ok <==> AttachmentValue::parses(v@),
            r matches Ok(x) ==> AttachmentValue::accepts(v@, x),
    {
        match Uri::try_from(v) {
            Ok(u) => Ok(AttachmentValue::Uri(u)),
            Err(_) => Ok(AttachmentValue::Binary(Binary::try_from(v)?)),
        }
    }
}

impl Ical for AttachmentValue {
    open spec fn ical(&self) -> Seq<u8> {
        match self {
            AttachmentValue::Uri(u) => u.ical(),
            AttachmentValue::Binary(b) => b.ical(),
        }
    }

    proof fn lemma_ical_valid(&self) {
        match self {
            AttachmentValue::Uri(u) => u.lemma_ical_valid(),
            AttachmentValue::Binary(b) => b.lemma_ical_valid(),
        }
    }

    fn write_to(&self, out: &mut Vec<u8>) {
        match self {
            AttachmentValue::Uri(u) => u.write_to(out),
            AttachmentValue::Binary(b) => b.write_to(out),
        }
    }
}

/// Whether the parameters `ps` declare inline binary content: `ENCODING`
/// is `BASE64` or `VALUE` is `BINARY`.
pub open spec fn declares_binary(ps: Seq<Seq<u8>>) -> bool {
    ||| (last_value(ps, "ENCODING".spec_bytes()) matches Some(w) && Encoding::keyword(w) == Some(
        Encoding::Base64,
    ))
    ||| (last_value(ps, "VALUE".spec_bytes()) matches Some(w) && ValueDataType::keyword(w)
        == Some(ValueDataType::Binary))
}

/// Whether the parameters `ps` declare a URI: `VALUE` is `URI`.
pub open spec fn declares_uri(ps: Seq<Seq<u8>>) -> bool {
    last_value(ps, "VALUE".spec_bytes()) matches Some(w) && ValueDataType::keyword(w) == Some(
        ValueDataType::Uri,
    )
}

/// Whether the shape of the value `val` agrees with what the parameters
/// `ps` declare: no binary declaration on a URI, no URI declaration on
/// BASE64 data.
pub open spec fn shape_agrees(ps: Seq<Seq<u8>>, val: Seq<u8>) -> bool {
    if Uri::parses(val) {
        !declares_binary(ps)
    } else {
        !declares_uri(ps)
    }
}

/// The parameters of an `ATTACH` property.
#[derive(Debug)]
pub struct AttachmentParams {
    shared: SharedParams,
    encoding: Option<Encoding>,
    value_data_type: Option<ValueDataType>,
    fmttype: Option<Fmttype>,
}

impl AttachmentParams {
    /// The names of the parameters modeled here.
    pub open spec fn keys() -> Seq<Seq<u8>> {
        seq!["ENCODING".spec_bytes(), "VALUE".spec_bytes(), "FMTTYPE".spec_bytes()]
    }

    /// Whether the segments `ps` parse: every unmodeled one can be kept and
    /// every modeled one holds a value of its parameter.
    pub open spec fn parses(ps: Seq<Seq<u8>>) -> bool {
        &&& kept(unmodeled(ps, AttachmentParams::keys())) is Some
        &&& forall|i: int|
            0 <= i < ps.len() && named(#[trigger] ps[i], "ENCODING".spec_bytes()) ==> Encoding::parses(
                seg_value(ps[i]),
            )
        &&& forall|i: int|
            0 <= i < ps.len() && named(#[trigger] ps[i], "VALUE".spec_bytes()) ==> ValueDataType::parses(
                seg_value(ps[i]),
            )
        &&& forall|i: int|
            0 <= i < ps.len() && named(#[trigger] ps[i], "FMTTYPE".spec_bytes()) ==> Fmttype::parses(
                seg_value(ps[i]),
            )
    }

    /// The unmodeled parameters.
    pub closed spec fn spec_shared(&self) -> SharedParams {
        self.shared
    }

    /// The `ENCODING` parameter.
    pub closed spec fn spec_encoding(&self) -> Option<Encoding> {
        self.encoding
    }

    /// The `VALUE` parameter.
    pub closed spec fn spec_value_data_type(&self) -> Option<ValueDataType> {
        self.value_data_type
    }

    /// The `FMTTYPE` parameter.
    pub closed spec fn spec_fmttype(&self) -> Option<Fmttype> {
        self.fmttype
    }

    /// Whether these parameters are what the segments `ps` parse to: each
    /// modeled parameter from its last occurrence, the rest kept in order.
    pub open spec fn describes(&self, ps: Seq<Seq<u8>>) -> bool {
        &&& kept(unmodeled(ps, AttachmentParams::keys())) == Some(
            (self.spec_shared().iana_bytes(), self.spec_shared().xname_bytes()),
        )
        &&& match last_value(ps, "ENCODING".spec_bytes()) {
            Some(v) => self.spec_encoding() matches Some(x) && Encoding::accepts(v, x),
            None => self.spec_encoding() is None,
        }
        &&& match last_value(ps, "VALUE".spec_bytes()) {
            Some(v) => self.spec_value_data_type() matches Some(x) && ValueDataType::accepts(v, x),
            None => self.spec_value_data_type() is None,
        }
        &&& match last_value(ps, "FMTTYPE".spec_bytes()) {
            Some(v) => self.spec_fmttype() matches Some(x) && Fmttype::accepts(v, x),
            None => self.spec_fmttype() is None,
        }
    }

    /// No parameters.
    pub fn new() -> (r: AttachmentParams)
        ensures
            r.spec_shared().iana_bytes() == Seq::<Seq<u8>>::empty(),
            r.spec_shared().xname_bytes() == Seq::<Seq<u8>>::empty(),
            r.spec_encoding() is None,
            r.spec_value_data_type() is None,
            r.spec_fmttype() is None,
    {
        AttachmentParams { shared: SharedParams::new(), encoding: None, value_data_type: None, fmttype: None }
    }

    /// The names modeled here differ from one another.
    proof fn lemma_keys_distinct()
        ensures
            "ENCODING".spec_bytes() != "VALUE".spec_bytes(),
            "ENCODING".spec_bytes() != "FMTTYPE".spec_bytes(),
            "VALUE".spec_bytes() != "FMTTYPE".spec_bytes(),
    {
        reveal_strlit("ENCODING");
        reveal_strlit("VALUE");
        reveal_strlit("FMTTYPE");
        lemma_str_bytes_differ("ENCODING", "VALUE", 0);
        lemma_str_bytes_differ("ENCODING", "FMTTYPE", 0);
        lemma_str_bytes_differ("VALUE", "FMTTYPE", 0);
    }

    /// Whether one segment can be taken: a modeled one must hold a value of
    /// its parameter, any other must be keepable.
    pub open spec fn segment_ok(seg: Seq<u8>) -> bool {
        if named(seg, "ENCODING".spec_bytes()) {
            Encoding::parses(seg_value(seg))
        } else if named(seg, "VALUE".spec_bytes()) {
            ValueDataType::parses(seg_value(seg))
        } else if named(seg, "FMTTYPE".spec_bytes()) {
            Fmttype::parses(seg_value(seg))
        } else {
            keepable(seg)
        }
    }

    /// How taking the segment `seg` changes the parameters `p` into `q`.
    pub open spec fn segment_step(p: AttachmentParams, q: AttachmentParams, seg: Seq<u8>) -> bool {
        &&& if named(seg, "ENCODING".spec_bytes()) {
            q.spec_encoding() matches Some(x) && Encoding::accepts(seg_value(seg), x)
        } else {
            q.spec_encoding() == p.spec_encoding()
        }
        &&& if named(seg, "VALUE".spec_bytes()) {
            q.spec_value_data_type() matches Some(x) && ValueDataType::accepts(seg_value(seg), x)
        } else {
            q.spec_value_data_type() == p.spec_value_data_type()
        }
        &&& if named(seg, "FMTTYPE".spec_bytes()) {
            q.spec_fmttype() matches Some(x) && Fmttype::accepts(seg_value(seg), x)
        } else {
            q.spec_fmttype() == p.spec_fmttype()
        }
        &&& if modeled(seg, AttachmentParams::keys()) {
            q.spec_shared() == p.spec_shared()
        } else {
            kept_step(p.spec_shared().iana_bytes(), p.spec_shared().xname_bytes(), seg) == Some(
                (q.spec_shared().iana_bytes(), q.spec_shared().xname_bytes()),
            )
        }
    }

    /// Takes one `NAME=VALUE` segment.
    fn take_segment(&mut self, seg: &[u8]) -> (r: Result<(), ParameterError>)
        ensures
            r is Ok <==> AttachmentParams::segment_ok(seg@),
            r is Ok ==> AttachmentParams::segment_step(*old(self), *final(self), seg@),
    {
        proof {
            AttachmentParams::lemma_keys_distinct();
            assert(AttachmentParams::keys()[0] == "ENCODING".spec_bytes());
            assert(AttachmentParams::keys()[1] == "VALUE".spec_bytes());
            assert(AttachmentParams::keys()[2] == "FMTTYPE".spec_bytes());
        }
        let name = match param_name(seg) {
            Ok(n) => n,
            Err(e) => {
                return Err(e);
            },
        };
        let key = to_upper(name.as_slice());
        if eq_str(key.as_slice(), "ENCODING") {
            let value = param_value(seg)?;
            match Encoding::try_from(value.as_slice()) {
                Ok(x) => {
                    self.encoding = Some(x);
                    Ok(())
                },
                Err(e) => Err(ParameterError::Param(e)),
            }
        } else if eq_str(key.as_slice(), "VALUE") {
            let value = param_value(seg)?;
            match ValueDataType::try_from(value.as_slice()) {
                Ok(x) => {
                    self.value_data_type = Some(x);
                    Ok(())
                },
                Err(e) => Err(ParameterError::Param(e)),
            }
        } else if eq_str(key.as_slice(), "FMTTYPE") {
            let value = param_value(seg)?;
            match Fmttype::try_from(value.as_slice()) {
                Ok(x) => {
                    self.fmttype = Some(x);
                    Ok(())
                },
                Err(e) => Err(ParameterError::Param(e)),
            }
        } else {
            assert(!modeled(seg@, AttachmentParams::keys()));
            self.shared.absorb(seg)
        }
    }

    /// Parses a parameter list.
    pub fn parse(v: &[u8]) -> (r: Result<AttachmentParams, ParameterError>)
        ensures
            r is Ok <==> AttachmentParams::parses(param_pieces(v@)),
            r matches Ok(p) ==> p.describes(param_pieces(v@)),
    {
        let segs = param_segments(v);
        let ghost ps = vec_views(segs@);
        let ghost keys = AttachmentParams::keys();
        let mut p = AttachmentParams::new();
        let mut i: usize = 0;
        assert(ps.take(0) =~= Seq::<Seq<u8>>::empty());
        while i < segs.len()
            invariant
                i <= segs.len(),
                ps == vec_views(segs@),
                ps == param_pieces(v@),
                keys == AttachmentParams::keys(),
                kept(unmodeled(ps.take(i as int), keys)) == Some(
                    (p.spec_shared().iana_bytes(), p.spec_shared().xname_bytes()),
                ),
                forall|j: int|
                    0 <= j < i && named(#[trigger] ps[j], "ENCODING".spec_bytes()) ==> Encoding::parses(
                        seg_value(ps[j]),
                    ),
                match last_value(ps.take(i as int), "ENCODING".spec_bytes()) {
                    Some(w) => p.spec_encoding() matches Some(x) && Encoding::accepts(w, x),
                    None => p.spec_encoding() is None,
                },
                forall|j: int|
                    0 <= j < i && named(#[trigger] ps[j], "VALUE".spec_bytes()) ==> ValueDataType::parses(
                        seg_value(ps[j]),
                    ),
                match last_value(ps.take(i as int), "VALUE".spec_bytes()) {
                    Some(w) => p.spec_value_data_type() matches Some(x) && ValueDataType::accepts(w, x),
                    None => p.spec_value_data_type() is None,
                },
                forall|j: int|
                    0 <= j < i && named(#[trigger] ps[j], "FMTTYPE".spec_bytes()) ==> Fmttype::parses(
                        seg_value(ps[j]),
                    ),
                match last_value(ps.take(i as int), "FMTTYPE".spec_bytes()) {
                    Some(w) => p.spec_fmttype() matches Some(x) && Fmttype::accepts(w, x),
                    None => p.spec_fmttype() is None,
                },
            decreases segs.len() - i,
        {
            let seg = segs[i].as_slice();
            proof {
                lemma_step(ps, keys, i as int);
                assert(seg@ == ps[i as int]);
                AttachmentParams::lemma_keys_distinct();
                assert(keys[0] == "ENCODING".spec_bytes());
                assert(keys[1] == "VALUE".spec_bytes());
                assert(keys[2] == "FMTTYPE".spec_bytes());
                lemma_kept_push(unmodeled(ps.take(i as int), keys), ps[i as int]);
            }
            match p.take_segment(seg) {
                Ok(()) => {},
                Err(e) => {
                    proof {
                        if !modeled(ps[i as int], keys) {
                            lemma_kept_unmodeled_fails(ps, keys, i + 1, ps.len() as int);
                        }
                        assert(ps.take(ps.len() as int) =~= ps);
                    }
                    return Err(e);
                },
            }
            i += 1;
        }
        assert(ps.take(segs.len() as int) =~= ps);
        Ok(p)
    }

    /// The unmodeled parameters.
    pub fn shared(&self) -> (r: &SharedParams)
        ensures
            *r == self.spec_shared(),
    {
        &self.shared
    }

    /// The `ENCODING` parameter.
    pub fn encoding(&self) -> (r: Option<&Encoding>)
        ensures
            match r {
                Some(x) => self.spec_encoding() == Some(*x),
                None => self.spec_encoding() is None,
            },
    {
        self.encoding.as_ref()
    }

    /// Sets the `ENCODING` parameter.
    pub fn set_encoding(&mut self, x: Encoding)
        ensures
            final(self).spec_encoding() == Some(x),
            final(self).spec_shared() == old(self).spec_shared(),
            final(self).spec_value_data_type() == old(self).spec_value_data_type(),
            final(self).spec_fmttype() == old(self).spec_fmttype(),
    {
        self.encoding = Some(x);
    }

    /// The `VALUE` parameter.
    pub fn value_data_type(&self) -> (r: Option<&ValueDataType>)
        ensures
            match r {
                Some(x) => self.spec_value_data_type() == Some(*x),
                None => self.spec_value_data_type() is None,
            },
    {
        self.value_data_type.as_ref()
    }

    /// Sets the `VALUE` parameter.
    pub fn set_value_data_type(&mut self, x: ValueDataType)
        ensures
            final(self).spec_value_data_type() == Some(x),
            final(self).spec_shared() == old(self).spec_shared(),
            final(self).spec_encoding() == old(self).spec_encoding(),
            final(self).spec_fmttype() == old(self).spec_fmttype(),
    {
        self.value_data_type = Some(x);
    }

    /// The `FMTTYPE` parameter.
    pub fn fmttype(&self) -> (r: Option<&Fmttype>)
        ensures
            match r {
                Some(x) => self.spec_fmttype() == Some(*x),
                None => self.spec_fmttype() is None,
            },
    {
        self.fmttype.as_ref()
    }

    /// Sets the `FMTTYPE` parameter.
    pub fn set_fmttype(&mut self, x: Fmttype)
        ensures
            final(self).spec_fmttype() == Some(x),
            final(self).spec_shared() == old(self).spec_shared(),
            final(self).spec_encoding() == old(self).spec_encoding(),
            final(self).spec_value_data_type() == old(self).spec_value_data_type(),
    {
        self.fmttype = Some(x);
    }

    /// How the parameters are written: each modeled one that is set, then
    /// the kept ones.
    pub open spec fn ical(&self) -> Seq<u8> {
        self.encoding_text() + self.value_data_type_text() + self.fmttype_text() + self.spec_shared().ical()
    }

    /// The written parameters are valid UTF-8.
    pub proof fn lemma_ical_valid(&self)
        ensures
            valid_utf8(self.ical()),
    {
        self.spec_shared().lemma_ical_valid();
        let mut acc: Seq<u8> = seq![];
        assert(valid_utf8(acc));
        let part = self.encoding_text();
        if let Some(x) = self.spec_encoding() {
            x.lemma_ical_valid();
            vstd::utf8::encode_utf8_valid_utf8(";ENCODING="@);
            vstd::utf8::valid_utf8_concat(";ENCODING=".spec_bytes(), x.ical());
        }
        vstd::utf8::valid_utf8_concat(acc, part);
        acc = acc + part;
        let part = self.value_data_type_text();
        if let Some(x) = self.spec_value_data_type() {
            x.lemma_ical_valid();
            vstd::utf8::encode_utf8_valid_utf8(";VALUE="@);
            vstd::utf8::valid_utf8_concat(";VALUE=".spec_bytes(), x.ical());
        }
        vstd::utf8::valid_utf8_concat(acc, part);
        acc = acc + part;
        let part = self.fmttype_text();
        if let Some(x) = self.spec_fmttype() {
            x.lemma_ical_valid();
            vstd::utf8::encode_utf8_valid_utf8(";FMTTYPE="@);
            vstd::utf8::valid_utf8_concat(";FMTTYPE=".spec_bytes(), x.ical());
        }
        vstd::utf8::valid_utf8_concat(acc, part);
        acc = acc + part;
        vstd::utf8::valid_utf8_concat(acc, self.spec_shared().ical());
        assert(acc + self.spec_shared().ical() =~= self.ical());
    }

    /// The `ENCODING` parameter as written, when it is set.
    pub open spec fn encoding_text(&self) -> Seq<u8> {
        match self.spec_encoding() {
            Some(x) => ";ENCODING=".spec_bytes() + x.ical(),
            None => seq![],
        }
    }

    fn write_encoding(&self, out: &mut Vec<u8>)
        ensures
            final(out)@ == old(out)@ + self.encoding_text(),
    {
        if let Some(x) = &self.encoding {
            append_str(out, ";ENCODING=");
            x.write_to(out);
        }
    }

    /// The `VALUE` parameter as written, when it is set.
    pub open spec fn value_data_type_text(&self) -> Seq<u8> {
        match self.spec_value_data_type() {
            Some(x) => ";VALUE=".spec_bytes() + x.ical(),
            None => seq![],
        }
    }

    fn write_value_data_type(&self, out: &mut Vec<u8>)
        ensures
            final(out)@ == old(out)@ + self.value_data_type_text(),
    {
        if let Some(x) = &self.value_data_type {
            append_str(out, ";VALUE=");
            x.write_to(out);
        }
    }

    /// The `FMTTYPE` parameter as written, when it is set.
    pub open spec fn fmttype_text(&self) -> Seq<u8> {
        match self.spec_fmttype() {
            Some(x) => ";FMTTYPE=".spec_bytes() + x.ical(),
            None => seq![],
        }
    }

    fn write_fmttype(&self, out: &mut Vec<u8>)
        ensures
            final(out)@ == old(out)@ + self.fmttype_text(),
    {
        if let Some(x) = &self.fmttype {
            append_str(out, ";FMTTYPE=");
            x.write_to(out);
        }
    }

    /// Appends the parameters as written.
    pub fn write_to(&self, out: &mut Vec<u8>)
        ensures
            final(out)@ == old(out)@ + self.ical(),
    {
        self.write_encoding(out);
        self.write_value_data_type(out);
        self.write_fmttype(out);
        self.shared.write_to(out);
        assert(out@ =~= old(out)@ + self.ical());
    }
}
/// The parameters of an `IMAGE` property.
#[derive(Debug)]
pub struct ImageParams {
    shared: SharedParams,
    encoding: Option<Encoding>,
    value_data_type: Option<ValueDataType>,
    fmttype: Option<Fmttype>,
    altrep: Option<Altrep>,
    display: Option<ImageDisplay>,
}

impl ImageParams {
    /// The names of the parameters modeled here.
    pub open spec fn keys() -> Seq<Seq<u8>> {
        seq!["ENCODING".spec_bytes(), "VALUE".spec_bytes(), "FMTTYPE".spec_bytes(), "ALTREP".spec_bytes(), "DISPLAY".spec_bytes()]
    }

    /// Whether the segments `ps` parse: every unmodeled one can be kept and
    /// every modeled one holds a value of its parameter.
    pub open spec fn parses(ps: Seq<Seq<u8>>) -> bool {
        &&& kept(unmodeled(ps, ImageParams::keys())) is Some
        &&& forall|i: int|
            0 <= i < ps.len() && named(#[trigger] ps[i], "ENCODING".spec_bytes()) ==> Encoding::parses(
                seg_value(ps[i]),
            )
        &&& forall|i: int|
            0 <= i < ps.len() && named(#[trigger] ps[i], "VALUE".spec_bytes()) ==> ValueDataType::parses(
                seg_value(ps[i]),
            )
        &&& forall|i: int|
            0 <= i < ps.len() && named(#[trigger] ps[i], "FMTTYPE".spec_bytes()) ==> Fmttype::parses(
                seg_value(ps[i]),
            )
        &&& forall|i: int|
            0 <= i < ps.len() && named(#[trigger] ps[i], "ALTREP".spec_bytes()) ==> Altrep::parses(
                seg_value(ps[i]),
            )
        &&& forall|i: int|
            0 <= i < ps.len() && named(#[trigger] ps[i], "DISPLAY".spec_bytes()) ==> ImageDisplay::parses(
                seg_value(ps[i]),
            )
    }

    /// The unmodeled parameters.
    pub closed spec fn spec_shared(&self) -> SharedParams {
        self.shared
    }

    /// The `ENCODING` parameter.
    pub closed spec fn spec_encoding(&self) -> Option<Encoding> {
        self.encoding
    }

    /// The `VALUE` parameter.
    pub closed spec fn spec_value_data_type(&self) -> Option<ValueDataType> {
        self.value_data_type
    }

    /// The `FMTTYPE` parameter.
    pub closed spec fn spec_fmttype(&self) -> Option<Fmttype> {
        self.fmttype
    }

    /// The `ALTREP` parameter.
    pub closed spec fn spec_altrep(&self) -> Option<Altrep> {
        self.altrep
    }

    /// The `DISPLAY` parameter.
    pub closed spec fn spec_display(&self) -> Option<ImageDisplay> {
        self.display
    }

    /// Whether these parameters are what the segments `ps` parse to: each
    /// modeled parameter from its last occurrence, the rest kept in order.
    pub open spec fn describes(&self, ps: Seq<Seq<u8>>) -> bool {
        &&& kept(unmodeled(ps, ImageParams::keys())) == Some(
            (self.spec_shared().iana_bytes(), self.spec_shared().xname_bytes()),
        )
        &&& match last_value(ps, "ENCODING".spec_bytes()) {
            Some(v) => self.spec_encoding() matches Some(x) && Encoding::accepts(v, x),
            None => self.spec_encoding() is None,
        }
        &&& match last_value(ps, "VALUE".spec_bytes()) {
            Some(v) => self.spec_value_data_type() matches Some(x) && ValueDataType::accepts(v, x),
            None => self.spec_value_data_type() is None,
        }
        &&& match last_value(ps, "FMTTYPE".spec_bytes()) {
            Some(v) => self.spec_fmttype() matches Some(x) && Fmttype::accepts(v, x),
            None => self.spec_fmttype() is None,
        }
        &&& match last_value(ps, "ALTREP".spec_bytes()) {
            Some(v) => self.spec_altrep() matches Some(x) && Altrep::accepts(v, x),
            None => self.spec_altrep() is None,
        }
        &&& match last_value(ps, "DISPLAY".spec_bytes()) {
            Some(v) => self.spec_display() matches Some(x) && ImageDisplay::accepts(v, x),
            None => self.spec_display() is None,
        }
    }

    /// No parameters.
    pub fn new() -> (r: ImageParams)
        ensures
            r.spec_shared().iana_bytes() == Seq::<Seq<u8>>::empty(),
            r.spec_shared().xname_bytes() == Seq::<Seq<u8>>::empty(),
            r.spec_encoding() is None,
            r.spec_value_data_type() is None,
            r.spec_fmttype() is None,
            r.spec_altrep() is None,
            r.spec_display() is None,
    {
        ImageParams { shared: SharedParams::new(), encoding: None, value_data_type: None, fmttype: None, altrep: None, display: None }
    }

    /// The names modeled here differ from one another.
    proof fn lemma_keys_distinct()
        ensures
            "ENCODING".spec_bytes() != "VALUE".spec_bytes(),
            "ENCODING".spec_bytes() != "FMTTYPE".spec_bytes(),
            "ENCODING".spec_bytes() != "ALTREP".spec_bytes(),
            "ENCODING".spec_bytes() != "DISPLAY".spec_bytes(),
            "VALUE".spec_bytes() != "FMTTYPE".spec_bytes(),
            "VALUE".spec_bytes() != "ALTREP".spec_bytes(),
            "VALUE".spec_bytes() != "DISPLAY".spec_bytes(),
            "FMTTYPE".spec_bytes() != "ALTREP".spec_bytes(),
            "FMTTYPE".spec_bytes() != "DISPLAY".spec_bytes(),
            "ALTREP".spec_bytes() != "DISPLAY".spec_bytes(),
    {
        reveal_strlit("ENCODING");
        reveal_strlit("VALUE");
        reveal_strlit("FMTTYPE");
        reveal_strlit("ALTREP");
        reveal_strlit("DISPLAY");
        lemma_str_bytes_differ("ENCODING", "VALUE", 0);
        lemma_str_bytes_differ("ENCODING", "FMTTYPE", 0);
        lemma_str_bytes_differ("ENCODING", "ALTREP", 0);
        lemma_str_bytes_differ("ENCODING", "DISPLAY", 0);
        lemma_str_bytes_differ("VALUE", "FMTTYPE", 0);
        lemma_str_bytes_differ("VALUE", "ALTREP", 0);
        lemma_str_bytes_differ("VALUE", "DISPLAY", 0);
        lemma_str_bytes_differ("FMTTYPE", "ALTREP", 0);
        lemma_str_bytes_differ("FMTTYPE", "DISPLAY", 0);
        lemma_str_bytes_differ("ALTREP", "DISPLAY", 0);
    }

    /// Whether one segment can be taken: a modeled one must hold a value of
    /// its parameter, any other must be keepable.
    pub open spec fn segment_ok(seg: Seq<u8>) -> bool {
        if named(seg, "ENCODING".spec_bytes()) {
            Encoding::parses(seg_value(seg))
        } else if named(seg, "VALUE".spec_bytes()) {
            ValueDataType::parses(seg_value(seg))
        } else if named(seg, "FMTTYPE".spec_bytes()) {
            Fmttype::parses(seg_value(seg))
        } else if named(seg, "ALTREP".spec_bytes()) {
            Altrep::parses(seg_value(seg))
        } else if named(seg, "DISPLAY".spec_bytes()) {
            ImageDisplay::parses(seg_value(seg))
        } else {
            keepable(seg)
        }
    }

    /// How taking the segment `seg` changes the parameters `p` into `q`.
    pub open spec fn segment_step(p: ImageParams, q: ImageParams, seg: Seq<u8>) -> bool {
        &&& if named(seg, "ENCODING".spec_bytes()) {
            q.spec_encoding() matches Some(x) && Encoding::accepts(seg_value(seg), x)
        } else {
            q.spec_encoding() == p.spec_encoding()
        }
        &&& if named(seg, "VALUE".spec_bytes()) {
            q.spec_value_data_type() matches Some(x) && ValueDataType::accepts(seg_value(seg), x)
        } else {
            q.spec_value_data_type() == p.spec_value_data_type()
        }
        &&& if named(seg, "FMTTYPE".spec_bytes()) {
            q.spec_fmttype() matches Some(x) && Fmttype::accepts(seg_value(seg), x)
        } else {
            q.spec_fmttype() == p.spec_fmttype()
        }
        &&& if named(seg, "ALTREP".spec_bytes()) {
            q.spec_altrep() matches Some(x) && Altrep::accepts(seg_value(seg), x)
        } else {
            q.spec_altrep() == p.spec_altrep()
        }
        &&& if named(seg, "DISPLAY".spec_bytes()) {
            q.spec_display() matches Some(x) && ImageDisplay::accepts(seg_value(seg), x)
        } else {
            q.spec_display() == p.spec_display()
        }
        &&& if modeled(seg, ImageParams::keys()) {
            q.spec_shared() == p.spec_shared()
        } else {
            kept_step(p.spec_shared().iana_bytes(), p.spec_shared().xname_bytes(), seg) == Some(
                (q.spec_shared().iana_bytes(), q.spec_shared().xname_bytes()),
            )
        }
    }

    /// Takes one `NAME=VALUE` segment.
    fn take_segment(&mut self, seg: &[u8]) -> (r: Result<(), ParameterError>)
        ensures
            r is Ok <==> ImageParams::segment_ok(seg@),
            r is Ok ==> ImageParams::segment_step(*old(self), *final(self), seg@),
    {
        proof {
            ImageParams::lemma_keys_distinct();
            assert(ImageParams::keys()[0] == "ENCODING".spec_bytes());
            assert(ImageParams::keys()[1] == "VALUE".spec_bytes());
            assert(ImageParams::keys()[2] == "FMTTYPE".spec_bytes());
            assert(ImageParams::keys()[3] == "ALTREP".spec_bytes());
            assert(ImageParams::keys()[4] == "DISPLAY".spec_bytes());
        }
        let name = match param_name(seg) {
            Ok(n) => n,
            Err(e) => {
                return Err(e);
            },
        };
        let key = to_upper(name.as_slice());
        if eq_str(key.as_slice(), "ENCODING") {
            let value = param_value(seg)?;
            match Encoding::try_from(value.as_slice()) {
                Ok(x) => {
                    self.encoding = Some(x);
                    Ok(())
                },
                Err(e) => Err(ParameterError::Param(e)),
            }
        } else if eq_str(key.as_slice(), "VALUE") {
            let value = param_value(seg)?;
            match ValueDataType::try_from(value.as_slice()) {
                Ok(x) => {
                    self.value_data_type = Some(x);
                    Ok(())
                },
                Err(e) => Err(ParameterError::Param(e)),
            }
        } else if eq_str(key.as_slice(), "FMTTYPE") {
            let value = param_value(seg)?;
            match Fmttype::try_from(value.as_slice()) {
                Ok(x) => {
                    self.fmttype = Some(x);
                    Ok(())
                },
                Err(e) => Err(ParameterError::Param(e)),
            }
        } else if eq_str(key.as_slice(), "ALTREP") {
            let value = param_value(seg)?;
            match Altrep::try_from(value.as_slice()) {
                Ok(x) => {
                    self.altrep = Some(x);
                    Ok(())
                },
                Err(e) => Err(ParameterError::Param(e)),
            }
        } else if eq_str(key.as_slice(), "DISPLAY") {
            let value = param_value(seg)?;
            match ImageDisplay::try_from(value.as_slice()) {
                Ok(x) => {
                    self.display = Some(x);
                    Ok(())
                },
                Err(e) => Err(ParameterError::Param(e)),
            }
        } else {
            assert(!modeled(seg@, ImageParams::keys()));
            self.shared.absorb(seg)
        }
    }

    /// Parses a parameter list.
    pub fn parse(v: &[u8]) -> (r: Result<ImageParams, ParameterError>)
        ensures
            r is Ok <==> ImageParams::parses(param_pieces(v@)),
            r matches Ok(p) ==> p.describes(param_pieces(v@)),
    {
        let segs = param_segments(v);
        let ghost ps = vec_views(segs@);
        let ghost keys = ImageParams::keys();
        let mut p = ImageParams::new();
        let mut i: usize = 0;
        assert(ps.take(0) =~= Seq::<Seq<u8>>::empty());
        while i < segs.len()
            invariant
                i <= segs.len(),
                ps == vec_views(segs@),
                ps == param_pieces(v@),
                keys == ImageParams::keys(),
                kept(unmodeled(ps.take(i as int), keys)) == Some(
                    (p.spec_shared().iana_bytes(), p.spec_shared().xname_bytes()),
                ),
                forall|j: int|
                    0 <= j < i && named(#[trigger] ps[j], "ENCODING".spec_bytes()) ==> Encoding::parses(
                        seg_value(ps[j]),
                    ),
                match last_value(ps.take(i as int), "ENCODING".spec_bytes()) {
                    Some(w) => p.spec_encoding() matches Some(x) && Encoding::accepts(w, x),
                    None => p.spec_encoding() is None,
                },
                forall|j: int|
                    0 <= j < i && named(#[trigger] ps[j], "VALUE".spec_bytes()) ==> ValueDataType::parses(
                        seg_value(ps[j]),
                    ),
                match last_value(ps.take(i as int), "VALUE".spec_bytes()) {
                    Some(w) => p.spec_value_data_type() matches Some(x) && ValueDataType::accepts(w, x),
                    None => p.spec_value_data_type() is None,
                },
                forall|j: int|
                    0 <= j < i && named(#[trigger] ps[j], "FMTTYPE".spec_bytes()) ==> Fmttype::parses(
                        seg_value(ps[j]),
                    ),
                match last_value(ps.take(i as int), "FMTTYPE".spec_bytes()) {
                    Some(w) => p.spec_fmttype() matches Some(x) && Fmttype::accepts(w, x),
                    None => p.spec_fmttype() is None,
                },
                forall|j: int|
                    0 <= j < i && named(#[trigger] ps[j], "ALTREP".spec_bytes()) ==> Altrep::parses(
                        seg_value(ps[j]),
                    ),
                match last_value(ps.take(i as int), "ALTREP".spec_bytes()) {
                    Some(w) => p.spec_altrep() matches Some(x) && Altrep::accepts(w, x),
                    None => p.spec_altrep() is None,
                },
                forall|j: int|
                    0 <= j < i && named(#[trigger] ps[j], "DISPLAY".spec_bytes()) ==> ImageDisplay::parses(
                        seg_value(ps[j]),
                    ),
                match last_value(ps.take(i as int), "DISPLAY".spec_bytes()) {
                    Some(w) => p.spec_display() matches Some(x) && ImageDisplay::accepts(w, x),
                    None => p.spec_display() is None,
                },
            decreases segs.len() - i,
        {
            let seg = segs[i].as_slice();
            proof {
                lemma_step(ps, keys, i as int);
                assert(seg@ == ps[i as int]);
                ImageParams::lemma_keys_distinct();
                assert(keys[0] == "ENCODING".spec_bytes());
                assert(keys[1] == "VALUE".spec_bytes());
                assert(keys[2] == "FMTTYPE".spec_bytes());
                assert(keys[3] == "ALTREP".spec_bytes());
                assert(keys[4] == "DISPLAY".spec_bytes());
                lemma_kept_push(unmodeled(ps.take(i as int), keys), ps[i as int]);
            }
            match p.take_segment(seg) {
                Ok(()) => {},
                Err(e) => {
                    proof {
                        if !modeled(ps[i as int], keys) {
                            lemma_kept_unmodeled_fails(ps, keys, i + 1, ps.len() as int);
                        }
                        assert(ps.take(ps.len() as int) =~= ps);
                    }
                    return Err(e);
                },
            }
            i += 1;
        }
        assert(ps.take(segs.len() as int) =~= ps);
        Ok(p)
    }

    /// The unmodeled parameters.
    pub fn shared(&self) -> (r: &SharedParams)
        ensures
            *r == self.spec_shared(),
    {
        &self.shared
    }

    /// The `ENCODING` parameter.
    pub fn encoding(&self) -> (r: Option<&Encoding>)
        ensures
            match r {
                Some(x) => self.spec_encoding() == Some(*x),
                None => self.spec_encoding() is None,
            },
    {
        self.encoding.as_ref()
    }

    /// Sets the `ENCODING` parameter.
    pub fn set_encoding(&mut self, x: Encoding)
        ensures
            final(self).spec_encoding() == Some(x),
            final(self).spec_shared() == old(self).spec_shared(),
            final(self).spec_value_data_type() == old(self).spec_value_data_type(),
            final(self).spec_fmttype() == old(self).spec_fmttype(),
            final(self).spec_altrep() == old(self).spec_altrep(),
            final(self).spec_display() == old(self).spec_display(),
    {
        self.encoding = Some(x);
    }

    /// The `VALUE` parameter.
    pub fn value_data_type(&self) -> (r: Option<&ValueDataType>)
        ensures
            match r {
                Some(x) => self.spec_value_data_type() == Some(*x),
                None => self.spec_value_data_type() is None,
            },
    {
        self.value_data_type.as_ref()
    }

    /// Sets the `VALUE` parameter.
    pub fn set_value_data_type(&mut self, x: ValueDataType)
        ensures
            final(self).spec_value_data_type() == Some(x),
            final(self).spec_shared() == old(self).spec_shared(),
            final(self).spec_encoding() == old(self).spec_encoding(),
            final(self).spec_fmttype() == old(self).spec_fmttype(),
            final(self).spec_altrep() == old(self).spec_altrep(),
            final(self).spec_display() == old(self).spec_display(),
    {
        self.value_data_type = Some(x);
    }

    /// The `FMTTYPE` parameter.
    pub fn fmttype(&self) -> (r: Option<&Fmttype>)
        ensures
            match r {
                Some(x) => self.spec_fmttype() == Some(*x),
                None => self.spec_fmttype() is None,
            },
    {
        self.fmttype.as_ref()
    }

    /// Sets the `FMTTYPE` parameter.
    pub fn set_fmttype(&mut self, x: Fmttype)
        ensures
            final(self).spec_fmttype() == Some(x),
            final(self).spec_shared() == old(self).spec_shared(),
            final(self).spec_encoding() == old(self).spec_encoding(),
            final(self).spec_value_data_type() == old(self).spec_value_data_type(),
            final(self).spec_altrep() == old(self).spec_altrep(),
            final(self).spec_display() == old(self).spec_display(),
    {
        self.fmttype = Some(x);
    }

    /// The `ALTREP` parameter.
    pub fn altrep(&self) -> (r: Option<&Altrep>)
        ensures
            match r {
                Some(x) => self.spec_altrep() == Some(*x),
                None => self.spec_altrep() is None,
            },
    {
        self.altrep.as_ref()
    }

    /// Sets the `ALTREP` parameter.
    pub fn set_altrep(&mut self, x: Altrep)
        ensures
            final(self).spec_altrep() == Some(x),
            final(self).spec_shared() == old(self).spec_shared(),
            final(self).spec_encoding() == old(self).spec_encoding(),
            final(self).spec_value_data_type() == old(self).spec_value_data_type(),
            final(self).spec_fmttype() == old(self).spec_fmttype(),
            final(self).spec_display() == old(self).spec_display(),
    {
        self.altrep = Some(x);
    }

    /// The `DISPLAY` parameter.
    pub fn display(&self) -> (r: Option<&ImageDisplay>)
        ensures
            match r {
                Some(x) => self.spec_display() == Some(*x),
                None => self.spec_display() is None,
            },
    {
        self.display.as_ref()
    }

    /// Sets the `DISPLAY` parameter.
    pub fn set_display(&mut self, x: ImageDisplay)
        ensures
            final(self).spec_display() == Some(x),
            final(self).spec_shared() == old(self).spec_shared(),
            final(self).spec_encoding() == old(self).spec_encoding(),
            final(self).spec_value_data_type() == old(self).spec_value_data_type(),
            final(self).spec_fmttype() == old(self).spec_fmttype(),
            final(self).spec_altrep() == old(self).spec_altrep(),
    {
        self.display = Some(x);
    }

    /// How the parameters are written: each modeled one that is set, then
    /// the kept ones.
    pub open spec fn ical(&self) -> Seq<u8> {
        self.encoding_text() + self.value_data_type_text() + self.fmttype_text() + self.altrep_text() + self.display_text() + self.spec_shared().ical()
    }

    /// The written parameters are valid UTF-8.
    pub proof fn lemma_ical_valid(&self)
        ensures
            valid_utf8(self.ical()),
    {
        self.spec_shared().lemma_ical_valid();
        let mut acc: Seq<u8> = seq![];
        assert(valid_utf8(acc));
        let part = self.encoding_text();
        if let Some(x) = self.spec_encoding() {
            x.lemma_ical_valid();
            vstd::utf8::encode_utf8_valid_utf8(";ENCODING="@);
            vstd::utf8::valid_utf8_concat(";ENCODING=".spec_bytes(), x.ical());
        }
        vstd::utf8::valid_utf8_concat(acc, part);
        acc = acc + part;
        let part = self.value_data_type_text();
        if let Some(x) = self.spec_value_data_type() {
            x.lemma_ical_valid();
            vstd::utf8::encode_utf8_valid_utf8(";VALUE="@);
            vstd::utf8::valid_utf8_concat(";VALUE=".spec_bytes(), x.ical());
        }
        vstd::utf8::valid_utf8_concat(acc, part);
        acc = acc + part;
        let part = self.fmttype_text();
        if let Some(x) = self.spec_fmttype() {
            x.lemma_ical_valid();
            vstd::utf8::encode_utf8_valid_utf8(";FMTTYPE="@);
            vstd::utf8::valid_utf8_concat(";FMTTYPE=".spec_bytes(), x.ical());
        }
        vstd::utf8::valid_utf8_concat(acc, part);
        acc = acc + part;
        let part = self.altrep_text();
        if let Some(x) = self.spec_altrep() {
            x.lemma_ical_valid();
            vstd::utf8::encode_utf8_valid_utf8(";ALTREP="@);
            vstd::utf8::valid_utf8_concat(";ALTREP=".spec_bytes(), x.ical());
        }
        vstd::utf8::valid_utf8_concat(acc, part);
        acc = acc + part;
        let part = self.display_text();
        if let Some(x) = self.spec_display() {
            x.lemma_ical_valid();
            vstd::utf8::encode_utf8_valid_utf8(";DISPLAY="@);
            vstd::utf8::valid_utf8_concat(";DISPLAY=".spec_bytes(), x.ical());
        }
        vstd::utf8::valid_utf8_concat(acc, part);
        acc = acc + part;
        vstd::utf8::valid_utf8_concat(acc, self.spec_shared().ical());
        assert(acc + self.spec_shared().ical() =~= self.ical());
    }

    /// The `ENCODING` parameter as written, when it is set.
    pub open spec fn encoding_text(&self) -> Seq<u8> {
        match self.spec_encoding() {
            Some(x) => ";ENCODING=".spec_bytes() + x.ical(),
            None => seq![],
        }
    }

    fn write_encoding(&self, out: &mut Vec<u8>)
        ensures
            final(out)@ == old(out)@ + self.encoding_text(),
    {
        if let Some(x) = &self.encoding {
            append_str(out, ";ENCODING=");
            x.write_to(out);
        }
    }

    /// The `VALUE` parameter as written, when it is set.
    pub open spec fn value_data_type_text(&self) -> Seq<u8> {
        match self.spec_value_data_type() {
            Some(x) => ";VALUE=".spec_bytes() + x.ical(),
            None => seq![],
        }
    }

    fn write_value_data_type(&self, out: &mut Vec<u8>)
        ensures
            final(out)@ == old(out)@ + self.value_data_type_text(),
    {
        if let Some(x) = &self.value_data_type {
            append_str(out, ";VALUE=");
            x.write_to(out);
        }
    }

    /// The `FMTTYPE` parameter as written, when it is set.
    pub open spec fn fmttype_text(&self) -> Seq<u8> {
        match self.spec_fmttype() {
            Some(x) => ";FMTTYPE=".spec_bytes() + x.ical(),
            None => seq![],
        }
    }

    fn write_fmttype(&self, out: &mut Vec<u8>)
        ensures
            final(out)@ == old(out)@ + self.fmttype_text(),
    {
        if let Some(x) = &self.fmttype {
            append_str(out, ";FMTTYPE=");
            x.write_to(out);
        }
    }

    /// The `ALTREP` parameter as written, when it is set.
    pub open spec fn altrep_text(&self) -> Seq<u8> {
        match self.spec_altrep() {
            Some(x) => ";ALTREP=".spec_bytes() + x.ical(),
            None => seq![],
        }
    }

    fn write_altrep(&self, out: &mut Vec<u8>)
        ensures
            final(out)@ == old(out)@ + self.altrep_text(),
    {
        if let Some(x) = &self.altrep {
            append_str(out, ";ALTREP=");
            x.write_to(out);
        }
    }

    /// The `DISPLAY` parameter as written, when it is set.
    pub open spec fn display_text(&self) -> Seq<u8> {
        match self.spec_display() {
            Some(x) => ";DISPLAY=".spec_bytes() + x.ical(),
            None => seq![],
        }
    }

    fn write_display(&self, out: &mut Vec<u8>)
        ensures
            final(out)@ == old(out)@ + self.display_text(),
    {
        if let Some(x) = &self.display {
            append_str(out, ";DISPLAY=");
            x.write_to(out);
        }
    }

    /// Appends the parameters as written.
    pub fn write_to(&self, out: &mut Vec<u8>)
        ensures
            final(out)@ == old(out)@ + self.ical(),
    {
        self.write_encoding(out);
        self.write_value_data_type(out);
        self.write_fmttype(out);
        self.write_altrep(out);
        self.write_display(out);
        self.shared.write_to(out);
        assert(out@ =~= old(out)@ + self.ical());
    }
}
/// The parameters of a `CATEGORIES` property.
#[derive(Debug)]
pub struct CategoriesParams {
    shared: SharedParams,
    language: Option<Language>,
}

impl CategoriesParams {
    /// The names of the parameters modeled here.
    pub open spec fn keys() -> Seq<Seq<u8>> {
        seq!["LANGUAGE".spec_bytes()]
    }

    /// Whether the segments `ps` parse: every unmodeled one can be kept and
    /// every modeled one holds a value of its parameter.
    pub open spec fn parses(ps: Seq<Seq<u8>>) -> bool {
        &&& kept(unmodeled(ps, CategoriesParams::keys())) is Some
        &&& forall|i: int|
            0 <= i < ps.len() && named(#[trigger] ps[i], "LANGUAGE".spec_bytes()) ==> Language::parses(
                seg_value(ps[i]),
            )
    }

    /// The unmodeled parameters.
    pub closed spec fn spec_shared(&self) -> SharedParams {
        self.shared
    }

    /// The `LANGUAGE` parameter.
    pub closed spec fn spec_language(&self) -> Option<Language> {
        self.language
    }

    /// Whether these parameters are what the segments `ps` parse to: each
    /// modeled parameter from its last occurrence, the rest kept in order.
    pub open spec fn describes(&self, ps: Seq<Seq<u8>>) -> bool {
        &&& kept(unmodeled(ps, CategoriesParams::keys())) == Some(
            (self.spec_shared().iana_bytes(), self.spec_shared().xname_bytes()),
        )
        &&& match last_value(ps, "LANGUAGE".spec_bytes()) {
            Some(v) => self.spec_language() matches Some(x) && Language::accepts(v, x),
            None => self.spec_language() is None,
        }
    }

    /// No parameters.
    pub fn new() -> (r: CategoriesParams)
        ensures
            r.spec_shared().iana_bytes() == Seq::<Seq<u8>>::empty(),
            r.spec_shared().xname_bytes() == Seq::<Seq<u8>>::empty(),
            r.spec_language() is None,
    {
        CategoriesParams { shared: SharedParams::new(), language: None }
    }

    /// The names modeled here differ from one another.
    proof fn lemma_keys_distinct()
        ensures
    {
        reveal_strlit("LANGUAGE");
    }

    /// Whether one segment can be taken: a modeled one must hold a value of
    /// its parameter, any other must be keepable.
    pub open spec fn segment_ok(seg: Seq<u8>) -> bool {
        if named(seg, "LANGUAGE".spec_bytes()) {
            Language::parses(seg_value(seg))
        } else {
            keepable(seg)
        }
    }

    /// How taking the segment `seg` changes the parameters `p` into `q`.
    pub open spec fn segment_step(p: CategoriesParams, q: CategoriesParams, seg: Seq<u8>) -> bool {
        &&& if named(seg, "LANGUAGE".spec_bytes()) {
            q.spec_language() matches Some(x) && Language::accepts(seg_value(seg), x)
        } else {
            q.spec_language() == p.spec_language()
        }
        &&& if modeled(seg, CategoriesParams::keys()) {
            q.spec_shared() == p.spec_shared()
        } else {
            kept_step(p.spec_shared().iana_bytes(), p.spec_shared().xname_bytes(), seg) == Some(
                (q.spec_shared().iana_bytes(), q.spec_shared().xname_bytes()),
            )
        }
    }

    /// Takes one `NAME=VALUE` segment.
    fn take_segment(&mut self, seg: &[u8]) -> (r: Result<(), ParameterError>)
        ensures
            r is Ok <==> CategoriesParams::segment_ok(seg@),
            r is Ok ==> CategoriesParams::segment_step(*old(self), *final(self), seg@),
    {
        proof {
            CategoriesParams::lemma_keys_distinct();
            assert(CategoriesParams::keys()[0] == "LANGUAGE".spec_bytes());
        }
        let name = match param_name(seg) {
            Ok(n) => n,
            Err(e) => {
                return Err(e);
            },
        };
        let key = to_upper(name.as_slice());
        if eq_str(key.as_slice(), "LANGUAGE") {
            let value = param_value(seg)?;
            match Language::try_from(value.as_slice()) {
                Ok(x) => {
                    self.language = Some(x);
                    Ok(())
                },
                Err(e) => Err(ParameterError::Param(e)),
            }
        } else {
            assert(!modeled(seg@, CategoriesParams::keys()));
            self.shared.absorb(seg)
        }
    }

    /// Parses a parameter list.
    pub fn parse(v: &[u8]) -> (r: Result<CategoriesParams, ParameterError>)
        ensures
            r is Ok <==> CategoriesParams::parses(param_pieces(v@)),
            r matches Ok(p) ==> p.describes(param_pieces(v@)),
    {
        let segs = param_segments(v);
        let ghost ps = vec_views(segs@);
        let ghost keys = CategoriesParams::keys();
        let mut p = CategoriesParams::new();
        let mut i: usize = 0;
        assert(ps.take(0) =~= Seq::<Seq<u8>>::empty());
        while i < segs.len()
            invariant
                i <= segs.len(),
                ps == vec_views(segs@),
                ps == param_pieces(v@),
                keys == CategoriesParams::keys(),
                kept(unmodeled(ps.take(i as int), keys)) == Some(
                    (p.spec_shared().iana_bytes(), p.spec_shared().xname_bytes()),
                ),
                forall|j: int|
                    0 <= j < i && named(#[trigger] ps[j], "LANGUAGE".spec_bytes()) ==> Language::parses(
                        seg_value(ps[j]),
                    ),
                match last_value(ps.take(i as int), "LANGUAGE".spec_bytes()) {
                    Some(w) => p.spec_language() matches Some(x) && Language::accepts(w, x),
                    None => p.spec_language() is None,
                },
            decreases segs.len() - i,
        {
            let seg = segs[i].as_slice();
            proof {
                lemma_step(ps, keys, i as int);
                assert(seg@ == ps[i as int]);
                CategoriesParams::lemma_keys_distinct();
                assert(keys[0] == "LANGUAGE".spec_bytes());
                lemma_kept_push(unmodeled(ps.take(i as int), keys), ps[i as int]);
            }
            match p.take_segment(seg) {
                Ok(()) => {},
                Err(e) => {
                    proof {
                        if !modeled(ps[i as int], keys) {
                            lemma_kept_unmodeled_fails(ps, keys, i + 1, ps.len() as int);
                        }
                        assert(ps.take(ps.len() as int) =~= ps);
                    }
                    return Err(e);
                },
            }
            i += 1;
        }
        assert(ps.take(segs.len() as int) =~= ps);
        Ok(p)
    }

    /// The unmodeled parameters.
    pub fn shared(&self) -> (r: &SharedParams)
        ensures
            *r == self.spec_shared(),
    {
        &self.shared
    }

    /// The `LANGUAGE` parameter.
    pub fn language(&self) -> (r: Option<&Language>)
        ensures
            match r {
                Some(x) => self.spec_language() == Some(*x),
                None => self.spec_language() is None,
            },
    {
        self.language.as_ref()
    }

    /// Sets the `LANGUAGE` parameter.
    pub fn set_language(&mut self, x: Language)
        ensures
            final(self).spec_language() == Some(x),
            final(self).spec_shared() == old(self).spec_shared(),
    {
        self.language = Some(x);
    }

    /// How the parameters are written: each modeled one that is set, then
    /// the kept ones.
    pub open spec fn ical(&self) -> Seq<u8> {
        self.language_text() + self.spec_shared().ical()
    }

    /// The written parameters are valid UTF-8.
    pub proof fn lemma_ical_valid(&self)
        ensures
            valid_utf8(self.ical()),
    {
        self.spec_shared().lemma_ical_valid();
        let mut acc: Seq<u8> = seq![];
        assert(valid_utf8(acc));
        let part = self.language_text();
        if let Some(x) = self.spec_language() {
            x.lemma_ical_valid();
            vstd::utf8::encode_utf8_valid_utf8(";LANGUAGE="@);
            vstd::utf8::valid_utf8_concat(";LANGUAGE=".spec_bytes(), x.ical());
        }
        vstd::utf8::valid_utf8_concat(acc, part);
        acc = acc + part;
        vstd::utf8::valid_utf8_concat(acc, self.spec_shared().ical());
        assert(acc + self.spec_shared().ical() =~= self.ical());
    }

    /// The `LANGUAGE` parameter as written, when it is set.
    pub open spec fn language_text(&self) -> Seq<u8> {
        match self.spec_language() {
            Some(x) => ";LANGUAGE=".spec_bytes() + x.ical(),
            None => seq![],
        }
    }

    fn write_language(&self, out: &mut Vec<u8>)
        ensures
            final(out)@ == old(out)@ + self.language_text(),
    {
        if let Some(x) = &self.language {
            append_str(out, ";LANGUAGE=");
            x.write_to(out);
        }
    }

    /// Appends the parameters as written.
    pub fn write_to(&self, out: &mut Vec<u8>)
        ensures
            final(out)@ == old(out)@ + self.ical(),
    {
        self.write_language(out);
        self.shared.write_to(out);
        assert(out@ =~= old(out)@ + self.ical());
    }
}
/// The parameters of a `CONFERENCE` property.
#[derive(Debug)]
pub struct ConferenceParams {
    shared: SharedParams,
    feature: Option<Feature>,
    label: Option<Label>,
    language: Option<Language>,
}

impl ConferenceParams {
    /// The names of the parameters modeled here.
    pub open spec fn keys() -> Seq<Seq<u8>> {
        seq!["FEATURE".spec_bytes(), "LABEL".spec_bytes(), "LANGUAGE".spec_bytes()]
    }

    /// Whether the segments `ps` parse: every unmodeled one can be kept and
    /// every modeled one holds a value of its parameter.
    pub open spec fn parses(ps: Seq<Seq<u8>>) -> bool {
        &&& kept(unmodeled(ps, ConferenceParams::keys())) is Some
        &&& forall|i: int|
            0 <= i < ps.len() && named(#[trigger] ps[i], "FEATURE".spec_bytes()) ==> Feature::parses(
                seg_value(ps[i]),
            )
        &&& forall|i: int|
            0 <= i < ps.len() && named(#[trigger] ps[i], "LABEL".spec_bytes()) ==> Label::parses(
                seg_value(ps[i]),
            )
        &&& forall|i: int|
            0 <= i < ps.len() && named(#[trigger] ps[i], "LANGUAGE".spec_bytes()) ==> Language::parses(
                seg_value(ps[i]),
            )
    }

    /// The unmodeled parameters.
    pub closed spec fn spec_shared(&self) -> SharedParams {
        self.shared
    }

    /// The `FEATURE` parameter.
    pub closed spec fn spec_feature(&self) -> Option<Feature> {
        self.feature
    }

    /// The `LABEL` parameter.
    pub closed spec fn spec_label(&self) -> Option<Label> {
        self.label
    }

    /// The `LANGUAGE` parameter.
    pub closed spec fn spec_language(&self) -> Option<Language> {
        self.language
    }

    /// Whether these parameters are what the segments `ps` parse to: each
    /// modeled parameter from its last occurrence, the rest kept in order.
    pub open spec fn describes(&self, ps: Seq<Seq<u8>>) -> bool {
        &&& kept(unmodeled(ps, ConferenceParams::keys())) == Some(
            (self.spec_shared().iana_bytes(), self.spec_shared().xname_bytes()),
        )
        &&& match last_value(ps, "FEATURE".spec_bytes()) {
            Some(v) => self.spec_feature() matches Some(x) && Feature::accepts(v, x),
            None => self.spec_feature() is None,
        }
        &&& match last_value(ps, "LABEL".spec_bytes()) {
            Some(v) => self.spec_label() matches Some(x) && Label::accepts(v, x),
            None => self.spec_label() is None,
        }
        &&& match last_value(ps, "LANGUAGE".spec_bytes()) {
            Some(v) => self.spec_language() matches Some(x) && Language::accepts(v, x),
            None => self.spec_language() is None,
        }
    }

    /// No parameters.
    pub fn new() -> (r: ConferenceParams)
        ensures
            r.spec_shared().iana_bytes() == Seq::<Seq<u8>>::empty(),
            r.spec_shared().xname_bytes() == Seq::<Seq<u8>>::empty(),
            r.spec_feature() is None,
            r.spec_label() is None,
            r.spec_language() is None,
    {
        ConferenceParams { shared: SharedParams::new(), feature: None, label: None, language: None }
    }

    /// The names modeled here differ from one another.
    proof fn lemma_keys_distinct()
        ensures
            "FEATURE".spec_bytes() != "LABEL".spec_bytes(),
            "FEATURE".spec_bytes() != "LANGUAGE".spec_bytes(),
            "LABEL".spec_bytes() != "LANGUAGE".spec_bytes(),
    {
        reveal_strlit("FEATURE");
        reveal_strlit("LABEL");
        reveal_strlit("LANGUAGE");
        lemma_str_bytes_differ("FEATURE", "LABEL", 0);
        lemma_str_bytes_differ("FEATURE", "LANGUAGE", 0);
        lemma_str_bytes_differ("LABEL", "LANGUAGE", 0);
    }

    /// Whether one segment can be taken: a modeled one must hold a value of
    /// its parameter, any other must be keepable.
    pub open spec fn segment_ok(seg: Seq<u8>) -> bool {
        if named(seg, "FEATURE".spec_bytes()) {
            Feature::parses(seg_value(seg))
        } else if named(seg, "LABEL".spec_bytes()) {
            Label::parses(seg_value(seg))
        } else if named(seg, "LANGUAGE".spec_bytes()) {
            Language::parses(seg_value(seg))
        } else {
            keepable(seg)
        }
    }

    /// How taking the segment `seg` changes the parameters `p` into `q`.
    pub open spec fn segment_step(p: ConferenceParams, q: ConferenceParams, seg: Seq<u8>) -> bool {
        &&& if named(seg, "FEATURE".spec_bytes()) {
            q.spec_feature() matches Some(x) && Feature::accepts(seg_value(seg), x)
        } else {
            q.spec_feature() == p.spec_feature()
        }
        &&& if named(seg, "LABEL".spec_bytes()) {
            q.spec_label() matches Some(x) && Label::accepts(seg_value(seg), x)
        } else {
            q.spec_label() == p.spec_label()
        }
        &&& if named(seg, "LANGUAGE".spec_bytes()) {
            q.spec_language() matches Some(x) && Language::accepts(seg_value(seg), x)
        } else {
            q.spec_language() == p.spec_language()
        }
        &&& if modeled(seg, ConferenceParams::keys()) {
            q.spec_shared() == p.spec_shared()
        } else {
            kept_step(p.spec_shared().iana_bytes(), p.spec_shared().xname_bytes(), seg) == Some(
                (q.spec_shared().iana_bytes(), q.spec_shared().xname_bytes()),
            )
        }
    }

    /// Takes one `NAME=VALUE` segment.
    fn take_segment(&mut self, seg: &[u8]) -> (r: Result<(), ParameterError>)
        ensures
            r is Ok <==> ConferenceParams::segment_ok(seg@),
            r is Ok ==> ConferenceParams::segment_step(*old(self), *final(self), seg@),
    {
        proof {
            ConferenceParams::lemma_keys_distinct();
            assert(ConferenceParams::keys()[0] == "FEATURE".spec_bytes());
            assert(ConferenceParams::keys()[1] == "LABEL".spec_bytes());
            assert(ConferenceParams::keys()[2] == "LANGUAGE".spec_bytes());
        }
        let name = match param_name(seg) {
            Ok(n) => n,
            Err(e) => {
                return Err(e);
            },
        };
        let key = to_upper(name.as_slice());
        if eq_str(key.as_slice(), "FEATURE") {
            let value = param_value(seg)?;
            match Feature::try_from(value.as_slice()) {
                Ok(x) => {
                    self.feature = Some(x);
                    Ok(())
                },
                Err(e) => Err(ParameterError::Param(e)),
            }
        } else if eq_str(key.as_slice(), "LABEL") {
            let value = param_value(seg)?;
            match Label::try_from(value.as_slice()) {
                Ok(x) => {
                    self.label = Some(x);
                    Ok(())
                },
                Err(e) => Err(ParameterError::Param(e)),
            }
        } else if eq_str(key.as_slice(), "LANGUAGE") {
            let value = param_value(seg)?;
            match Language::try_from(value.as_slice()) {
                Ok(x) => {
                    self.language = Some(x);
                    Ok(())
                },
                Err(e) => Err(ParameterError::Param(e)),
            }
        } else {
            assert(!modeled(seg@, ConferenceParams::keys()));
            self.shared.absorb(seg)
        }
    }

    /// Parses a parameter list.
    pub fn parse(v: &[u8]) -> (r: Result<ConferenceParams, ParameterError>)
        ensures
            r is Ok <==> ConferenceParams::parses(param_pieces(v@)),
            r matches Ok(p) ==> p.describes(param_pieces(v@)),
    {
        let segs = param_segments(v);
        let ghost ps = vec_views(segs@);
        let ghost keys = ConferenceParams::keys();
        let mut p = ConferenceParams::new();
        let mut i: usize = 0;
        assert(ps.take(0) =~= Seq::<Seq<u8>>::empty());
        while i < segs.len()
            invariant
                i <= segs.len(),
                ps == vec_views(segs@),
                ps == param_pieces(v@),
                keys == ConferenceParams::keys(),
                kept(unmodeled(ps.take(i as int), keys)) == Some(
                    (p.spec_shared().iana_bytes(), p.spec_shared().xname_bytes()),
                ),
                forall|j: int|
                    0 <= j < i && named(#[trigger] ps[j], "FEATURE".spec_bytes()) ==> Feature::parses(
                        seg_value(ps[j]),
                    ),
                match last_value(ps.take(i as int), "FEATURE".spec_bytes()) {
                    Some(w) => p.spec_feature() matches Some(x) && Feature::accepts(w, x),
                    None => p.spec_feature() is None,
                },
                forall|j: int|
                    0 <= j < i && named(#[trigger] ps[j], "LABEL".spec_bytes()) ==> Label::parses(
                        seg_value(ps[j]),
                    ),
                match last_value(ps.take(i as int), "LABEL".spec_bytes()) {
                    Some(w) => p.spec_label() matches Some(x) && Label::accepts(w, x),
                    None => p.spec_label() is None,
                },
                forall|j: int|
                    0 <= j < i && named(#[trigger] ps[j], "LANGUAGE".spec_bytes()) ==> Language::parses(
                        seg_value(ps[j]),
                    ),
                match last_value(ps.take(i as int), "LANGUAGE".spec_bytes()) {
                    Some(w) => p.spec_language() matches Some(x) && Language::accepts(w, x),
                    None => p.spec_language() is None,
                },
            decreases segs.len() - i,
        {
            let seg = segs[i].as_slice();
            proof {
                lemma_step(ps, keys, i as int);
                assert(seg@ == ps[i as int]);
                ConferenceParams::lemma_keys_distinct();
                assert(keys[0] == "FEATURE".spec_bytes());
                assert(keys[1] == "LABEL".spec_bytes());
                assert(keys[2] == "LANGUAGE".spec_bytes());
                lemma_kept_push(unmodeled(ps.take(i as int), keys), ps[i as int]);
            }
            match p.take_segment(seg) {
                Ok(()) => {},
                Err(e) => {
                    proof {
                        if !modeled(ps[i as int], keys) {
                            lemma_kept_unmodeled_fails(ps, keys, i + 1, ps.len() as int);
                        }
                        assert(ps.take(ps.len() as int) =~= ps);
                    }
                    return Err(e);
                },
            }
            i += 1;
        }
        assert(ps.take(segs.len() as int) =~= ps);
        Ok(p)
    }

    /// The unmodeled parameters.
    pub fn shared(&self) -> (r: &SharedParams)
        ensures
            *r == self.spec_shared(),
    {
        &self.shared
    }

    /// The `FEATURE` parameter.
    pub fn feature(&self) -> (r: Option<&Feature>)
        ensures
            match r {
                Some(x) => self.spec_feature() == Some(*x),
                None => self.spec_feature() is None,
            },
    {
        self.feature.as_ref()
    }

    /// Sets the `FEATURE` parameter.
    pub fn set_feature(&mut self, x: Feature)
        ensures
            final(self).spec_feature() == Some(x),
            final(self).spec_shared() == old(self).spec_shared(),
            final(self).spec_label() == old(self).spec_label(),
            final(self).spec_language() == old(self).spec_language(),
    {
        self.feature = Some(x);
    }

    /// The `LABEL` parameter.
    pub fn label(&self) -> (r: Option<&Label>)
        ensures
            match r {
                Some(x) => self.spec_label() == Some(*x),
                None => self.spec_label() is None,
            },
    {
        self.label.as_ref()
    }

    /// Sets the `LABEL` parameter.
    pub fn set_label(&mut self, x: Label)
        ensures
            final(self).spec_label() == Some(x),
            final(self).spec_shared() == old(self).spec_shared(),
            final(self).spec_feature() == old(self).spec_feature(),
            final(self).spec_language() == old(self).spec_language(),
    {
        self.label = Some(x);
    }

    /// The `LANGUAGE` parameter.
    pub fn language(&self) -> (r: Option<&Language>)
        ensures
            match r {
                Some(x) => self.spec_language() == Some(*x),
                None => self.spec_language() is None,
            },
    {
        self.language.as_ref()
    }

    /// Sets the `LANGUAGE` parameter.
    pub fn set_language(&mut self, x: Language)
        ensures
            final(self).spec_language() == Some(x),
            final(self).spec_shared() == old(self).spec_shared(),
            final(self).spec_feature() == old(self).spec_feature(),
            final(self).spec_label() == old(self).spec_label(),
    {
        self.language = Some(x);
    }

    /// How the parameters are written: each modeled one that is set, then
    /// the kept ones.
    pub open spec fn ical(&self) -> Seq<u8> {
        self.feature_text() + self.label_text() + self.language_text() + self.spec_shared().ical()
    }

    /// The written parameters are valid UTF-8.
    pub proof fn lemma_ical_valid(&self)
        ensures
            valid_utf8(self.ical()),
    {
        self.spec_shared().lemma_ical_valid();
        let mut acc: Seq<u8> = seq![];
        assert(valid_utf8(acc));
        let part = self.feature_text();
        if let Some(x) = self.spec_feature() {
            x.lemma_ical_valid();
            vstd::utf8::encode_utf8_valid_utf8(";FEATURE="@);
            vstd::utf8::valid_utf8_concat(";FEATURE=".spec_bytes(), x.ical());
        }
        vstd::utf8::valid_utf8_concat(acc, part);
        acc = acc + part;
        let part = self.label_text();
        if let Some(x) = self.spec_label() {
            x.lemma_ical_valid();
            vstd::utf8::encode_utf8_valid_utf8(";LABEL="@);
            vstd::utf8::valid_utf8_concat(";LABEL=".spec_bytes(), x.ical());
        }
        vstd::utf8::valid_utf8_concat(acc, part);
        acc = acc + part;
        let part = self.language_text();
        if let Some(x) = self.spec_language() {
            x.lemma_ical_valid();
            vstd::utf8::encode_utf8_valid_utf8(";LANGUAGE="@);
            vstd::utf8::valid_utf8_concat(";LANGUAGE=".spec_bytes(), x.ical());
        }
        vstd::utf8::valid_utf8_concat(acc, part);
        acc = acc + part;
        vstd::utf8::valid_utf8_concat(acc, self.spec_shared().ical());
        assert(acc + self.spec_shared().ical() =~= self.ical());
    }

    /// The `FEATURE` parameter as written, when it is set.
    pub open spec fn feature_text(&self) -> Seq<u8> {
        match self.spec_feature() {
            Some(x) => ";FEATURE=".spec_bytes() + x.ical(),
            None => seq![],
        }
    }

    fn write_feature(&self, out: &mut Vec<u8>)
        ensures
            final(out)@ == old(out)@ + self.feature_text(),
    {
        if let Some(x) = &self.feature {
            append_str(out, ";FEATURE=");
            x.write_to(out);
        }
    }

    /// The `LABEL` parameter as written, when it is set.
    pub open spec fn label_text(&self) -> Seq<u8> {
        match self.spec_label() {
            Some(x) => ";LABEL=".spec_bytes() + x.ical(),
            None => seq![],
        }
    }

    fn write_label(&self, out: &mut Vec<u8>)
        ensures
            final(out)@ == old(out)@ + self.label_text(),
    {
        if let Some(x) = &self.label {
            append_str(out, ";LABEL=");
            x.write_to(out);
        }
    }

    /// The `LANGUAGE` parameter as written, when it is set.
    pub open spec fn language_text(&self) -> Seq<u8> {
        match self.spec_language() {
            Some(x) => ";LANGUAGE=".spec_bytes() + x.ical(),
            None => seq![],
        }
    }

    fn write_language(&self, out: &mut Vec<u8>)
        ensures
            final(out)@ == old(out)@ + self.language_text(),
    {
        if let Some(x) = &self.language {
            append_str(out, ";LANGUAGE=");
            x.write_to(out);
        }
    }

    /// Appends the parameters as written.
    pub fn write_to(&self, out: &mut Vec<u8>)
        ensures
            final(out)@ == old(out)@ + self.ical(),
    {
        self.write_feature(out);
        self.write_label(out);
        self.write_language(out);
        self.shared.write_to(out);
        assert(out@ =~= old(out)@ + self.ical());
    }
}
/// A document associated with a component, by reference or inline (RFC
/// 5545 §3.8.1.1).
#[derive(Debug)]
pub struct Attachment {
    value: AttachmentValue,
    params: AttachmentParams,
}

impl Attachment {
    /// The property's value.
    pub closed spec fn spec_value(&self) -> AttachmentValue {
        self.value
    }

    /// The property's parameters.
    pub closed spec fn spec_params(&self) -> AttachmentParams {
        self.params
    }

    /// Whether the rest of a content line, after the name, parses: its
    /// parameters and value do, and the value's shape agrees with them.
    pub open spec fn parses(v: Seq<u8>) -> bool {
        match first_unquoted(v, COLON) {
            Some(k) => {
                &&& AttachmentParams::parses(param_pieces(v.take(k)))
                &&& AttachmentValue::parses(v.skip(k + 1))
                &&& shape_agrees(param_pieces(v.take(k)), v.skip(k + 1))
            },
            None => false,
        }
    }

    /// Whether this property is what the rest of a content line parses to.
    pub open spec fn describes(&self, v: Seq<u8>) -> bool {
        match first_unquoted(v, COLON) {
            Some(k) => self.spec_params().describes(param_pieces(v.take(k)))
                && AttachmentValue::accepts(v.skip(k + 1), self.spec_value()),
            None => false,
        }
    }

    /// Parses the rest of a content line, after the name.
    pub fn try_from(v: &[u8]) -> (r: Result<Attachment, ParseError>)
        ensures
            r is Ok <==> Attachment::parses(v@),
            r matches Ok(p) ==> p.describes(v@),
            first_unquoted(v@, COLON) is None ==> r matches Err(ParseError::Parameter { .. }),
    {
        let (head, tail) = split_remainder(v)?;
        let params = match AttachmentParams::parse(head.as_slice()) {
            Ok(p) => p,
            Err(e) => {
                return Err(ParseError::Parameters(e));
            },
        };
        let value = match AttachmentValue::try_from(tail.as_slice()) {
            Ok(x) => x,
            Err(e) => {
                return Err(ParseError::Value(e));
            },
        };
        let declared_binary = matches!(params.encoding(), Some(Encoding::Base64)) || matches!(
            params.value_data_type(),
            Some(ValueDataType::Binary)
        );
        let declared_uri = matches!(params.value_data_type(), Some(ValueDataType::Uri));
        let mismatch = match &value {
            AttachmentValue::Uri(_) => declared_binary,
            AttachmentValue::Binary(_) => declared_uri,
        };
        if mismatch {
            return Err(
                ParseError::Value(
                    malformed_value(
                        "ATTACH value shape consistent with its ENCODING/VALUE params",
                        tail.as_slice(),
                    ),
                ),
            );
        }
        Ok(Attachment { value, params })
    }

    /// An attachment referring to `uri`.
    pub fn from_uri(uri: Uri, fmttype: Option<Fmttype>) -> (r: Attachment)
        ensures
            r.spec_value() == AttachmentValue::Uri(uri),
            r.spec_params().spec_fmttype() == fmttype,
            r.spec_params().spec_encoding() is None,
            r.spec_params().spec_value_data_type() is None,
            r.spec_params().spec_shared().iana_bytes() == Seq::<Seq<u8>>::empty(),
            r.spec_params().spec_shared().xname_bytes() == Seq::<Seq<u8>>::empty(),
    {
        let mut params = AttachmentParams::new();
        if let Some(f) = fmttype {
            params.set_fmttype(f);
        }
        Attachment { value: AttachmentValue::Uri(uri), params }
    }

    /// An attachment holding `data` inline, with `ENCODING=BASE64` and
    /// `VALUE=BINARY`.
    pub fn from_binary(data: Binary, fmttype: Option<Fmttype>) -> (r: Attachment)
        ensures
            r.spec_value() == AttachmentValue::Binary(data),
            r.spec_params().spec_fmttype() == fmttype,
            r.spec_params().spec_encoding() == Some(Encoding::Base64),
            r.spec_params().spec_value_data_type() == Some(ValueDataType::Binary),
            r.spec_params().spec_shared().iana_bytes() == Seq::<Seq<u8>>::empty(),
            r.spec_params().spec_shared().xname_bytes() == Seq::<Seq<u8>>::empty(),
    {
        let mut params = AttachmentParams::new();
        params.set_encoding(Encoding::Base64);
        params.set_value_data_type(ValueDataType::Binary);
        if let Some(f) = fmttype {
            params.set_fmttype(f);
        }
        Attachment { value: AttachmentValue::Binary(data), params }
    }

    /// The property's value.
    pub fn value(&self) -> (r: &AttachmentValue)
        ensures
            *r == self.spec_value(),
    {
        &self.value
    }

    /// The property's parameters.
    pub fn params(&self) -> (r: &AttachmentParams)
        ensures
            *r == self.spec_params(),
    {
        &self.params
    }
}

impl Ical for Attachment {
    /// The content line: `ATTACH`, the parameters, `:`, the value.
    open spec fn ical(&self) -> Seq<u8> {
        "ATTACH".spec_bytes() + self.spec_params().ical() + seq![COLON] + self.spec_value().ical()
    }

    proof fn lemma_ical_valid(&self) {
        self.spec_params().lemma_ical_valid();
        self.spec_value().lemma_ical_valid();
        lemma_line_valid("ATTACH", self.spec_params().ical(), self.spec_value().ical());
    }

    fn write_to(&self, out: &mut Vec<u8>) {
        append_str(out, "ATTACH");
        self.params.write_to(out);
        out.push(COLON);
        self.value.write_to(out);
        assert(out@ =~= old(out)@ + self.ical());
    }
}

/// An image associated with a calendar or component, by reference or
/// inline (RFC 7986 §5.10).
#[derive(Debug)]
pub struct Image {
    value: AttachmentValue,
    params: ImageParams,
}

impl Image {
    /// The property's value.
    pub closed spec fn spec_value(&self) -> AttachmentValue {
        self.value
    }

    /// The property's parameters.
    pub closed spec fn spec_params(&self) -> ImageParams {
        self.params
    }

    /// Whether the rest of a content line, after the name, parses: its
    /// parameters and value do, and the value's shape agrees with them.
    pub open spec fn parses(v: Seq<u8>) -> bool {
        match first_unquoted(v, COLON) {
            Some(k) => {
                &&& ImageParams::parses(param_pieces(v.take(k)))
                &&& AttachmentValue::parses(v.skip(k + 1))
                &&& shape_agrees(param_pieces(v.take(k)), v.skip(k + 1))
            },
            None => false,
        }
    }

    /// Whether this property is what the rest of a content line parses to.
    pub open spec fn describes(&self, v: Seq<u8>) -> bool {
        match first_unquoted(v, COLON) {
            Some(k) => self.spec_params().describes(param_pieces(v.take(k)))
                && AttachmentValue::accepts(v.skip(k + 1), self.spec_value()),
            None => false,
        }
    }

    /// Parses the rest of a content line, after the name.
    pub fn try_from(v: &[u8]) -> (r: Result<Image, ParseError>)
        ensures
            r is Ok <==> Image::parses(v@),
            r matches Ok(p) ==> p.describes(v@),
            first_unquoted(v@, COLON) is None ==> r matches Err(ParseError::Parameter { .. }),
    {
        let (head, tail) = split_remainder(v)?;
        let params = match ImageParams::parse(head.as_slice()) {
            Ok(p) => p,
            Err(e) => {
                return Err(ParseError::Parameters(e));
            },
        };
        let value = match AttachmentValue::try_from(tail.as_slice()) {
            Ok(x) => x,
            Err(e) => {
                return Err(ParseError::Value(e));
            },
        };
        let declared_binary = matches!(params.encoding(), Some(Encoding::Base64)) || matches!(
            params.value_data_type(),
            Some(ValueDataType::Binary)
        );
        let declared_uri = matches!(params.value_data_type(), Some(ValueDataType::Uri));
        let mismatch = match &value {
            AttachmentValue::Uri(_) => declared_binary,
            AttachmentValue::Binary(_) => declared_uri,
        };
        if mismatch {
            return Err(
                ParseError::Value(
                    malformed_value(
                        "IMAGE value shape consistent with its ENCODING/VALUE params",
                        tail.as_slice(),
                    ),
                ),
            );
        }
        Ok(Image { value, params })
    }

    /// An image referring to `uri`.
    pub fn from_uri(
        uri: Uri,
        fmttype: Option<Fmttype>,
        altrep: Option<Altrep>,
        display: Option<ImageDisplay>,
    ) -> (r: Image)
        ensures
            r.spec_value() == AttachmentValue::Uri(uri),
            r.spec_params().spec_fmttype() == fmttype,
            r.spec_params().spec_altrep() == altrep,
            r.spec_params().spec_display() == display,
            r.spec_params().spec_encoding() is None,
            r.spec_params().spec_value_data_type() is None,
            r.spec_params().spec_shared().iana_bytes() == Seq::<Seq<u8>>::empty(),
            r.spec_params().spec_shared().xname_bytes() == Seq::<Seq<u8>>::empty(),
    {
        let mut params = ImageParams::new();
        if let Some(f) = fmttype {
            params.set_fmttype(f);
        }
        if let Some(a) = altrep {
            params.set_altrep(a);
        }
        if let Some(d) = display {
            params.set_display(d);
        }
        Image { value: AttachmentValue::Uri(uri), params }
    }

    /// An image holding `data` inline, with `ENCODING=BASE64` and
    /// `VALUE=BINARY`.
    pub fn from_binary(data: Binary, fmttype: Option<Fmttype>, display: Option<ImageDisplay>) -> (r:
        Image)
        ensures
            r.spec_value() == AttachmentValue::Binary(data),
            r.spec_params().spec_fmttype() == fmttype,
            r.spec_params().spec_display() == display,
            r.spec_params().spec_altrep() is None,
            r.spec_params().spec_encoding() == Some(Encoding::Base64),
            r.spec_params().spec_value_data_type() == Some(ValueDataType::Binary),
            r.spec_params().spec_shared().iana_bytes() == Seq::<Seq<u8>>::empty(),
            r.spec_params().spec_shared().xname_bytes() == Seq::<Seq<u8>>::empty(),
    {
        let mut params = ImageParams::new();
        params.set_encoding(Encoding::Base64);
        params.set_value_data_type(ValueDataType::Binary);
        if let Some(f) = fmttype {
            params.set_fmttype(f);
        }
        if let Some(d) = display {
            params.set_display(d);
        }
        Image { value: AttachmentValue::Binary(data), params }
    }

    /// The property's value.
    pub fn value(&self) -> (r: &AttachmentValue)
        ensures
            *r == self.spec_value(),
    {
        &self.value
    }

    /// The property's parameters.
    pub fn params(&self) -> (r: &ImageParams)
        ensures
            *r == self.spec_params(),
    {
        &self.params
    }
}

impl Ical for Image {
    /// The content line: `IMAGE`, the parameters, `:`, the value.
    open spec fn ical(&self) -> Seq<u8> {
        "IMAGE".spec_bytes() + self.spec_params().ical() + seq![COLON] + self.spec_value().ical()
    }

    proof fn lemma_ical_valid(&self) {
        self.spec_params().lemma_ical_valid();
        self.spec_value().lemma_ical_valid();
        lemma_line_valid("IMAGE", self.spec_params().ical(), self.spec_value().ical());
    }

    fn write_to(&self, out: &mut Vec<u8>) {
        append_str(out, "IMAGE");
        self.params.write_to(out);
        out.push(COLON);
        self.value.write_to(out);
        assert(out@ =~= old(out)@ + self.ical());
    }
}

/// The categories of a component, `,`-separated (RFC 5545 §3.8.1.2).
#[derive(Debug)]
pub struct Categories {
    value: Vec<Text>,
    params: CategoriesParams,
}

impl Categories {
    /// The property's value.
    pub closed spec fn spec_value(&self) -> Vec<Text> {
        self.value
    }

    /// The property's parameters.
    pub closed spec fn spec_params(&self) -> CategoriesParams {
        self.params
    }

    /// Whether the rest of a content line, after the name, parses.
    pub open spec fn parses(v: Seq<u8>) -> bool {
        match first_unquoted(v, COLON) {
            Some(k) => CategoriesParams::parses(param_pieces(v.take(k))) && text_list_parses(v.skip(k + 1)),
            None => false,
        }
    }

    /// Whether this property is what the rest of a content line parses to.
    pub open spec fn describes(&self, v: Seq<u8>) -> bool {
        match first_unquoted(v, COLON) {
            Some(k) => self.spec_params().describes(param_pieces(v.take(k))) && text_list_accepts(v.skip(k + 1), self.spec_value()@),
            None => false,
        }
    }

    /// Parses the rest of a content line, after the name: the parameters,
    /// `:`, the value.
    pub fn try_from(v: &[u8]) -> (r: Result<Categories, ParseError>)
        ensures
            r is Ok <==> Categories::parses(v@),
            r matches Ok(p) ==> p.describes(v@),
            first_unquoted(v@, COLON) is None ==> r matches Err(ParseError::Parameter { .. }),
    {
        let (head, tail) = split_remainder(v)?;
        let params = match CategoriesParams::parse(head.as_slice()) {
            Ok(p) => p,
            Err(e) => {
                return Err(ParseError::Parameters(e));
            },
        };
        let value = match parse_text_list(tail.as_slice()) {
            Ok(x) => x,
            Err(e) => {
                return Err(ParseError::Value(e));
            },
        };
        Ok(Categories { value, params })
    }

    /// The property's value.
    pub fn value(&self) -> (r: &Vec<Text>)
        ensures
            *r == self.spec_value(),
    {
        &self.value
    }

    /// The property's parameters.
    pub fn params(&self) -> (r: &CategoriesParams)
        ensures
            *r == self.spec_params(),
    {
        &self.params
    }
}

impl Ical for Categories {
    /// The content line: `CATEGORIES`, the parameters, `:`, the value.
    open spec fn ical(&self) -> Seq<u8> {
        "CATEGORIES".spec_bytes() + self.spec_params().ical() + seq![COLON] + text_list_ical(self.spec_value()@)
    }

    proof fn lemma_ical_valid(&self) {
        self.spec_params().lemma_ical_valid();
        lemma_text_list_valid(self.spec_value()@);
        lemma_line_valid("CATEGORIES", self.spec_params().ical(), text_list_ical(self.spec_value()@));
    }

    fn write_to(&self, out: &mut Vec<u8>) {
        append_str(out, "CATEGORIES");
        self.params.write_to(out);
        out.push(COLON);
        write_text_list(self.value.as_slice(), out);
        assert(out@ =~= old(out)@ + self.ical());
    }
}
/// Builds a [`Categories`] with its `LANGUAGE` parameter.
#[derive(Debug)]
pub struct CategoriesBuilder {
    value: Vec<Text>,
    params: CategoriesParams,
}

impl CategoriesBuilder {
    /// A builder for the categories `value`.
    pub fn new(value: Vec<Text>) -> (r: CategoriesBuilder)
        ensures
            r.spec_value() == value,
            r.spec_params().spec_language() is None,
            r.spec_params().spec_shared().iana_bytes() == Seq::<Seq<u8>>::empty(),
            r.spec_params().spec_shared().xname_bytes() == Seq::<Seq<u8>>::empty(),
    {
        CategoriesBuilder { value, params: CategoriesParams::new() }
    }

    /// The value being built.
    pub closed spec fn spec_value(&self) -> Vec<Text> {
        self.value
    }

    /// The parameters set so far.
    pub closed spec fn spec_params(&self) -> CategoriesParams {
        self.params
    }

    /// Sets `LANGUAGE`.
    pub fn language(self, language: Language) -> (r: CategoriesBuilder)
        ensures
            r.spec_value() == self.spec_value(),
            r.spec_params().spec_language() == Some(language),
            r.spec_params().spec_shared() == self.spec_params().spec_shared(),
    {
        let mut b = self;
        b.params.set_language(language);
        b
    }

    /// The property.
    pub fn build(self) -> (r: Categories)
        ensures
            r.spec_value() == self.spec_value(),
            r.spec_params() == self.spec_params(),
    {
        Categories { value: self.value, params: self.params }
    }
}

/// The access classification of a component (RFC 5545 §3.8.1.3).
#[derive(Debug)]
pub struct Classification {
    value: ClassificationEnum,
    params: SharedParams,
}

impl Classification {
    /// The property's value.
    pub closed spec fn spec_value(&self) -> ClassificationEnum {
        self.value
    }

    /// The property's parameters.
    pub closed spec fn spec_params(&self) -> SharedParams {
        self.params
    }

    /// Whether the rest of a content line, after the name, parses.
    pub open spec fn parses(v: Seq<u8>) -> bool {
        match first_unquoted(v, COLON) {
            Some(k) => SharedParams::parses(param_pieces(v.take(k))) && ClassificationEnum::parses(v.skip(k + 1)),
            None => false,
        }
    }

    /// Whether this property is what the rest of a content line parses to.
    pub open spec fn describes(&self, v: Seq<u8>) -> bool {
        match first_unquoted(v, COLON) {
            Some(k) => self.spec_params().describes(param_pieces(v.take(k))) && ClassificationEnum::accepts(v.skip(k + 1), self.spec_value()),
            None => false,
        }
    }

    /// Parses the rest of a content line, after the name: the parameters,
    /// `:`, the value.
    pub fn try_from(v: &[u8]) -> (r: Result<Classification, ParseError>)
        ensures
            r is Ok <==> Classification::parses(v@),
            r matches Ok(p) ==> p.describes(v@),
            first_unquoted(v@, COLON) is None ==> r matches Err(ParseError::Parameter { .. }),
    {
        let (head, tail) = split_remainder(v)?;
        let params = match SharedParams::parse(head.as_slice()) {
            Ok(p) => p,
            Err(e) => {
                return Err(ParseError::Parameters(e));
            },
        };
        let value = match ClassificationEnum::try_from(tail.as_slice()) {
            Ok(x) => x,
            Err(e) => {
                return Err(ParseError::Value(e));
            },
        };
        Ok(Classification { value, params })
    }

    /// The property with no parameters.
    pub fn new(value: ClassificationEnum) -> (r: Classification)
        ensures
            r.spec_value() == value,
            r.spec_params().iana_bytes() == Seq::<Seq<u8>>::empty(),
            r.spec_params().xname_bytes() == Seq::<Seq<u8>>::empty(),
    {
        Classification { value, params: SharedParams::new() }
    }

    /// The property's value.
    pub fn value(&self) -> (r: &ClassificationEnum)
        ensures
            *r == self.spec_value(),
    {
        &self.value
    }

    /// The property's parameters.
    pub fn params(&self) -> (r: &SharedParams)
        ensures
            *r == self.spec_params(),
    {
        &self.params
    }
}

impl Ical for Classification {
    /// The content line: `CLASS`, the parameters, `:`, the value.
    open spec fn ical(&self) -> Seq<u8> {
        "CLASS".spec_bytes() + self.spec_params().ical() + seq![COLON] + self.spec_value().ical()
    }

    proof fn lemma_ical_valid(&self) {
        self.spec_params().lemma_ical_valid();
        self.spec_value().lemma_ical_valid();
        lemma_line_valid("CLASS", self.spec_params().ical(), self.spec_value().ical());
    }

    fn write_to(&self, out: &mut Vec<u8>) {
        append_str(out, "CLASS");
        self.params.write_to(out);
        out.push(COLON);
        self.value.write_to(out);
        assert(out@ =~= old(out)@ + self.ical());
    }
}
/// The access classifications.
#[derive(Debug)]
pub enum ClassificationEnum {
    /// Public.
    Public,
    /// Private.
    Private,
    /// Confidential.
    Confidential,
    /// A non-standard, `X-`-prefixed value.
    XName(Text),
    /// A value registered with IANA that isn't one of the values above.
    Iana(Text),
}

impl ClassificationEnum {
    /// The keyword value `v` spells, if it spells one.
    pub open spec fn keyword(v: Seq<u8>) -> Option<ClassificationEnum> {
        if v == "PUBLIC".spec_bytes() {
            Some(ClassificationEnum::Public)
        } else if v == "PRIVATE".spec_bytes() {
            Some(ClassificationEnum::Private)
        } else if v == "CONFIDENTIAL".spec_bytes() {
            Some(ClassificationEnum::Confidential)
        } else {
            None
        }
    }

    /// A keyword is written back as itself: whatever keyword value `v`
    /// reads as is written as `v`.
    pub proof fn lemma_keyword_written(v: Seq<u8>, p: ClassificationEnum)
        requires
            ClassificationEnum::keyword(v) == Some(p),
        ensures
            p.ical() == v,
    {
    }

    /// Whether `v` parses: a keyword, or else any TEXT.
    pub open spec fn parses(v: Seq<u8>) -> bool {
        ClassificationEnum::keyword(v) is Some || Text::parses(v)
    }

    /// Whether `p` is what `v` parses to: its keyword, else its text, as an
    /// x-name when it starts with `X-` and as an iana-token otherwise.
    pub open spec fn accepts(v: Seq<u8>, p: ClassificationEnum) -> bool {
        match ClassificationEnum::keyword(v) {
            Some(k) => p == k,
            None => {
                ||| (p matches ClassificationEnum::XName(t) && has_x_prefix(v) && t.bytes()
                    == unescape_text(v))
                ||| (p matches ClassificationEnum::Iana(t) && !has_x_prefix(v) && t.bytes()
                    == unescape_text(v))
            },
        }
    }

    /// Parses the parameter value.
    pub fn try_from(v: &[u8]) -> (r: Result<ClassificationEnum, ValueError>)
        ensures
            r is Ok <==> ClassificationEnum::parses(v@),
            r matches Ok(p) ==> ClassificationEnum::accepts(v@, p),
    {
        if eq_str(v, "PUBLIC") {
            Ok(ClassificationEnum::Public)
        } else if eq_str(v, "PRIVATE") {
            Ok(ClassificationEnum::Private)
        } else if eq_str(v, "CONFIDENTIAL") {
            Ok(ClassificationEnum::Confidential)
        } else {
            let t = Text::try_from(v)?;
            if x_prefixed(v) {
                Ok(ClassificationEnum::XName(t))
            } else {
                Ok(ClassificationEnum::Iana(t))
            }
        }
    }
}

impl Ical for ClassificationEnum {
    open spec fn ical(&self) -> Seq<u8> {
        match self {
            ClassificationEnum::Public => "PUBLIC".spec_bytes(),
            ClassificationEnum::Private => "PRIVATE".spec_bytes(),
            ClassificationEnum::Confidential => "CONFIDENTIAL".spec_bytes(),
            ClassificationEnum::XName(t) => t.bytes(),
            ClassificationEnum::Iana(t) => t.bytes(),
        }
    }

    proof fn lemma_ical_valid(&self) {
        broadcast use vstd::utf8::encode_utf8_valid_utf8;

    }

    fn write_to(&self, out: &mut Vec<u8>) {
        match self {
            ClassificationEnum::Public => append_str(out, "PUBLIC"),
            ClassificationEnum::Private => append_str(out, "PRIVATE"),
            ClassificationEnum::Confidential => append_str(out, "CONFIDENTIAL"),
            ClassificationEnum::XName(t) => t.write_raw(out),
            ClassificationEnum::Iana(t) => t.write_raw(out),
        }
    }
}
/// A non-processing comment (RFC 5545 §3.8.1.4).
#[derive(Debug)]
pub struct Comment {
    value: Text,
    params: AltrepLanguageParams,
}

impl Comment {
    /// The property's value.
    pub closed spec fn spec_value(&self) -> Text {
        self.value
    }

    /// The property's parameters.
    pub closed spec fn spec_params(&self) -> AltrepLanguageParams {
        self.params
    }

    /// Whether the rest of a content line, after the name, parses.
    pub open spec fn parses(v: Seq<u8>) -> bool {
        match first_unquoted(v, COLON) {
            Some(k) => AltrepLanguageParams::parses(param_pieces(v.take(k))) && Text::parses(v.skip(k + 1)),
            None => false,
        }
    }

    /// Whether this property is what the rest of a content line parses to.
    pub open spec fn describes(&self, v: Seq<u8>) -> bool {
        match first_unquoted(v, COLON) {
            Some(k) => self.spec_params().describes(param_pieces(v.take(k))) && Text::accepts(v.skip(k + 1), self.spec_value()),
            None => false,
        }
    }

    /// Parses the rest of a content line, after the name: the parameters,
    /// `:`, the value.
    pub fn try_from(v: &[u8]) -> (r: Result<Comment, ParseError>)
        ensures
            r is Ok <==> Comment::parses(v@),
            r matches Ok(p) ==> p.describes(v@),
            first_unquoted(v@, COLON) is None ==> r matches Err(ParseError::Parameter { .. }),
    {
        let (head, tail) = split_remainder(v)?;
        let params = match AltrepLanguageParams::parse(head.as_slice()) {
            Ok(p) => p,
            Err(e) => {
                return Err(ParseError::Parameters(e));
            },
        };
        let value = match Text::try_from(tail.as_slice()) {
            Ok(x) => x,
            Err(e) => {
                return Err(ParseError::Value(e));
            },
        };
        Ok(Comment { value, params })
    }

    /// The property's value.
    pub fn value(&self) -> (r: &Text)
        ensures
            *r == self.spec_value(),
    {
        &self.value
    }

    /// The property's parameters.
    pub fn params(&self) -> (r: &AltrepLanguageParams)
        ensures
            *r == self.spec_params(),
    {
        &self.params
    }
}

impl Ical for Comment {
    /// The content line: `COMMENT`, the parameters, `:`, the value.
    open spec fn ical(&self) -> Seq<u8> {
        "COMMENT".spec_bytes() + self.spec_params().ical() + seq![COLON] + self.spec_value().ical()
    }

    proof fn lemma_ical_valid(&self) {
        self.spec_params().lemma_ical_valid();
        self.spec_value().lemma_ical_valid();
        lemma_line_valid("COMMENT", self.spec_params().ical(), self.spec_value().ical());
    }

    fn write_to(&self, out: &mut Vec<u8>) {
        append_str(out, "COMMENT");
        self.params.write_to(out);
        out.push(COLON);
        self.value.write_to(out);
        assert(out@ =~= old(out)@ + self.ical());
    }
}
/// Builds a [`Comment`] with its `ALTREP` and `LANGUAGE` parameters.
#[derive(Debug)]
pub struct CommentBuilder {
    value: Text,
    params: AltrepLanguageParams,
}

impl CommentBuilder {
    /// The value being built.
    pub closed spec fn spec_value(&self) -> Text {
        self.value
    }

    /// The parameters set so far.
    pub closed spec fn spec_params(&self) -> AltrepLanguageParams {
        self.params
    }

    /// A builder for `value`, with no parameters.
    pub fn new(value: Text) -> (r: CommentBuilder)
        ensures
            r.spec_value() == value,
            r.spec_params().spec_altrep() is None,
            r.spec_params().spec_language() is None,
            r.spec_params().spec_shared().iana_bytes() == Seq::<Seq<u8>>::empty(),
            r.spec_params().spec_shared().xname_bytes() == Seq::<Seq<u8>>::empty(),
    {
        CommentBuilder { value, params: AltrepLanguageParams::new() }
    }

    /// Sets `ALTREP`.
    pub fn altrep(self, altrep: Altrep) -> (r: CommentBuilder)
        ensures
            r.spec_value() == self.spec_value(),
            r.spec_params().spec_altrep() == Some(altrep),
            r.spec_params().spec_language() == self.spec_params().spec_language(),
            r.spec_params().spec_shared() == self.spec_params().spec_shared(),
    {
        let mut b = self;
        b.params.set_altrep(altrep);
        b
    }

    /// Sets `LANGUAGE`.
    pub fn language(self, language: Language) -> (r: CommentBuilder)
        ensures
            r.spec_value() == self.spec_value(),
            r.spec_params().spec_language() == Some(language),
            r.spec_params().spec_altrep() == self.spec_params().spec_altrep(),
            r.spec_params().spec_shared() == self.spec_params().spec_shared(),
    {
        let mut b = self;
        b.params.set_language(language);
        b
    }

    /// The property.
    pub fn build(self) -> (r: Comment)
        ensures
            r.spec_value() == self.spec_value(),
            r.spec_params() == self.spec_params(),
    {
        Comment { value: self.value, params: self.params }
    }
}

/// A fuller description of a component than its summary (RFC 5545
/// §3.8.1.5).
#[derive(Debug)]
pub struct Description {
    value: Text,
    params: AltrepLanguageParams,
}

impl Description {
    /// The property's value.
    pub closed spec fn spec_value(&self) -> Text {
        self.value
    }

    /// The property's parameters.
    pub closed spec fn spec_params(&self) -> AltrepLanguageParams {
        self.params
    }

    /// Whether the rest of a content line, after the name, parses.
    pub open spec fn parses(v: Seq<u8>) -> bool {
        match first_unquoted(v, COLON) {
            Some(k) => AltrepLanguageParams::parses(param_pieces(v.take(k))) && Text::parses(v.skip(k + 1)),
            None => false,
        }
    }

    /// Whether this property is what the rest of a content line parses to.
    pub open spec fn describes(&self, v: Seq<u8>) -> bool {
        match first_unquoted(v, COLON) {
            Some(k) => self.spec_params().describes(param_pieces(v.take(k))) && Text::accepts(v.skip(k + 1), self.spec_value()),
            None => false,
        }
    }

    /// Parses the rest of a content line, after the name: the parameters,
    /// `:`, the value.
    pub fn try_from(v: &[u8]) -> (r: Result<Description, ParseError>)
        ensures
            r is Ok <==> Description::parses(v@),
            r matches Ok(p) ==> p.describes(v@),
            first_unquoted(v@, COLON) is None ==> r matches Err(ParseError::Parameter { .. }),
    {
        let (head, tail) = split_remainder(v)?;
        let params = match AltrepLanguageParams::parse(head.as_slice()) {
            Ok(p) => p,
            Err(e) => {
                return Err(ParseError::Parameters(e));
            },
        };
        let value = match Text::try_from(tail.as_slice()) {
            Ok(x) => x,
            Err(e) => {
                return Err(ParseError::Value(e));
            },
        };
        Ok(Description { value, params })
    }

    /// The property's value.
    pub fn value(&self) -> (r: &Text)
        ensures
            *r == self.spec_value(),
    {
        &self.value
    }

    /// The property's parameters.
    pub fn params(&self) -> (r: &AltrepLanguageParams)
        ensures
            *r == self.spec_params(),
    {
        &self.params
    }
}

impl Ical for Description {
    /// The content line: `DESCRIPTION`, the parameters, `:`, the value.
    open spec fn ical(&self) -> Seq<u8> {
        "DESCRIPTION".spec_bytes() + self.spec_params().ical() + seq![COLON] + self.spec_value().ical()
    }

    proof fn lemma_ical_valid(&self) {
        self.spec_params().lemma_ical_valid();
        self.spec_value().lemma_ical_valid();
        lemma_line_valid("DESCRIPTION", self.spec_params().ical(), self.spec_value().ical());
    }

    fn write_to(&self, out: &mut Vec<u8>) {
        append_str(out, "DESCRIPTION");
        self.params.write_to(out);
        out.push(COLON);
        self.value.write_to(out);
        assert(out@ =~= old(out)@ + self.ical());
    }
}
/// Builds a [`Description`] with its `ALTREP` and `LANGUAGE` parameters.
#[derive(Debug)]
pub struct DescriptionBuilder {
    value: Text,
    params: AltrepLanguageParams,
}

impl DescriptionBuilder {
    /// The value being built.
    pub closed spec fn spec_value(&self) -> Text {
        self.value
    }

    /// The parameters set so far.
    pub closed spec fn spec_params(&self) -> AltrepLanguageParams {
        self.params
    }

    /// A builder for `value`, with no parameters.
    pub fn new(value: Text) -> (r: DescriptionBuilder)
        ensures
            r.spec_value() == value,
            r.spec_params().spec_altrep() is None,
            r.spec_params().spec_language() is None,
            r.spec_params().spec_shared().iana_bytes() == Seq::<Seq<u8>>::empty(),
            r.spec_params().spec_shared().xname_bytes() == Seq::<Seq<u8>>::empty(),
    {
        DescriptionBuilder { value, params: AltrepLanguageParams::new() }
    }

    /// Sets `ALTREP`.
    pub fn altrep(self, altrep: Altrep) -> (r: DescriptionBuilder)
        ensures
            r.spec_value() == self.spec_value(),
            r.spec_params().spec_altrep() == Some(altrep),
            r.spec_params().spec_language() == self.spec_params().spec_language(),
            r.spec_params().spec_shared() == self.spec_params().spec_shared(),
    {
        let mut b = self;
        b.params.set_altrep(altrep);
        b
    }

    /// Sets `LANGUAGE`.
    pub fn language(self, language: Language) -> (r: DescriptionBuilder)
        ensures
            r.spec_value() == self.spec_value(),
            r.spec_params().spec_language() == Some(language),
            r.spec_params().spec_altrep() == self.spec_params().spec_altrep(),
            r.spec_params().spec_shared() == self.spec_params().spec_shared(),
    {
        let mut b = self;
        b.params.set_language(language);
        b
    }

    /// The property.
    pub fn build(self) -> (r: Description)
        ensures
            r.spec_value() == self.spec_value(),
            r.spec_params() == self.spec_params(),
    {
        Description { value: self.value, params: self.params }
    }
}

/// The venue of an activity (RFC 5545 §3.8.1.7).
#[derive(Debug)]
pub struct Location {
    value: Text,
    params: AltrepLanguageParams,
}

impl Location {
    /// The property's value.
    pub closed spec fn spec_value(&self) -> Text {
        self.value
    }

    /// The property's parameters.
    pub closed spec fn spec_params(&self) -> AltrepLanguageParams {
        self.params
    }

    /// Whether the rest of a content line, after the name, parses.
    pub open spec fn parses(v: Seq<u8>) -> bool {
        match first_unquoted(v, COLON) {
            Some(k) => AltrepLanguageParams::parses(param_pieces(v.take(k))) && Text::parses(v.skip(k + 1)),
            None => false,
        }
    }

    /// Whether this property is what the rest of a content line parses to.
    pub open spec fn describes(&self, v: Seq<u8>) -> bool {
        match first_unquoted(v, COLON) {
            Some(k) => self.spec_params().describes(param_pieces(v.take(k))) && Text::accepts(v.skip(k + 1), self.spec_value()),
            None => false,
        }
    }

    /// Parses the rest of a content line, after the name: the parameters,
    /// `:`, the value.
    pub fn try_from(v: &[u8]) -> (r: Result<Location, ParseError>)
        ensures
            r is Ok <==> Location::parses(v@),
            r matches Ok(p) ==> p.describes(v@),
            first_unquoted(v@, COLON) is None ==> r matches Err(ParseError::Parameter { .. }),
    {
        let (head, tail) = split_remainder(v)?;
        let params = match AltrepLanguageParams::parse(head.as_slice()) {
            Ok(p) => p,
            Err(e) => {
                return Err(ParseError::Parameters(e));
            },
        };
        let value = match Text::try_from(tail.as_slice()) {
            Ok(x) => x,
            Err(e) => {
                return Err(ParseError::Value(e));
            },
        };
        Ok(Location { value, params })
    }

    /// The property's value.
    pub fn value(&self) -> (r: &Text)
        ensures
            *r == self.spec_value(),
    {
        &self.value
    }

    /// The property's parameters.
    pub fn params(&self) -> (r: &AltrepLanguageParams)
        ensures
            *r == self.spec_params(),
    {
        &self.params
    }
}

impl Ical for Location {
    /// The content line: `LOCATION`, the parameters, `:`, the value.
    open spec fn ical(&self) -> Seq<u8> {
        "LOCATION".spec_bytes() + self.spec_params().ical() + seq![COLON] + self.spec_value().ical()
    }

    proof fn lemma_ical_valid(&self) {
        self.spec_params().lemma_ical_valid();
        self.spec_value().lemma_ical_valid();
        lemma_line_valid("LOCATION", self.spec_params().ical(), self.spec_value().ical());
    }

    fn write_to(&self, out: &mut Vec<u8>) {
        append_str(out, "LOCATION");
        self.params.write_to(out);
        out.push(COLON);
        self.value.write_to(out);
        assert(out@ =~= old(out)@ + self.ical());
    }
}
/// Builds a [`Location`] with its `ALTREP` and `LANGUAGE` parameters.
#[derive(Debug)]
pub struct LocationBuilder {
    value: Text,
    params: AltrepLanguageParams,
}

impl LocationBuilder {
    /// The value being built.
    pub closed spec fn spec_value(&self) -> Text {
        self.value
    }

    /// The parameters set so far.
    pub closed spec fn spec_params(&self) -> AltrepLanguageParams {
        self.params
    }

    /// A builder for `value`, with no parameters.
    pub fn new(value: Text) -> (r: LocationBuilder)
        ensures
            r.spec_value() == value,
            r.spec_params().spec_altrep() is None,
            r.spec_params().spec_language() is None,
            r.spec_params().spec_shared().iana_bytes() == Seq::<Seq<u8>>::empty(),
            r.spec_params().spec_shared().xname_bytes() == Seq::<Seq<u8>>::empty(),
    {
        LocationBuilder { value, params: AltrepLanguageParams::new() }
    }

    /// Sets `ALTREP`.
    pub fn altrep(self, altrep: Altrep) -> (r: LocationBuilder)
        ensures
            r.spec_value() == self.spec_value(),
            r.spec_params().spec_altrep() == Some(altrep),
            r.spec_params().spec_language() == self.spec_params().spec_language(),
            r.spec_params().spec_shared() == self.spec_params().spec_shared(),
    {
        let mut b = self;
        b.params.set_altrep(altrep);
        b
    }

    /// Sets `LANGUAGE`.
    pub fn language(self, language: Language) -> (r: LocationBuilder)
        ensures
            r.spec_value() == self.spec_value(),
            r.spec_params().spec_language() == Some(language),
            r.spec_params().spec_altrep() == self.spec_params().spec_altrep(),
            r.spec_params().spec_shared() == self.spec_params().spec_shared(),
    {
        let mut b = self;
        b.params.set_language(language);
        b
    }

    /// The property.
    pub fn build(self) -> (r: Location)
        ensures
            r.spec_value() == self.spec_value(),
            r.spec_params() == self.spec_params(),
    {
        Location { value: self.value, params: self.params }
    }
}

/// The equipment or resources an activity needs (RFC 5545 §3.8.1.10).
#[derive(Debug)]
pub struct Resources {
    value: Text,
    params: AltrepLanguageParams,
}

impl Resources {
    /// The property's value.
    pub closed spec fn spec_value(&self) -> Text {
        self.value
    }

    /// The property's parameters.
    pub closed spec fn spec_params(&self) -> AltrepLanguageParams {
        self.params
    }

    /// Whether the rest of a content line, after the name, parses.
    pub open spec fn parses(v: Seq<u8>) -> bool {
        match first_unquoted(v, COLON) {
            Some(k) => AltrepLanguageParams::parses(param_pieces(v.take(k))) && Text::parses(v.skip(k + 1)),
            None => false,
        }
    }

    /// Whether this property is what the rest of a content line parses to.
    pub open spec fn describes(&self, v: Seq<u8>) -> bool {
        match first_unquoted(v, COLON) {
            Some(k) => self.spec_params().describes(param_pieces(v.take(k))) && Text::accepts(v.skip(k + 1), self.spec_value()),
            None => false,
        }
    }

    /// Parses the rest of a content line, after the name: the parameters,
    /// `:`, the value.
    pub fn try_from(v: &[u8]) -> (r: Result<Resources, ParseError>)
        ensures
            r is Ok <==> Resources::parses(v@),
            r matches Ok(p) ==> p.describes(v@),
            first_unquoted(v@, COLON) is None ==> r matches Err(ParseError::Parameter { .. }),
    {
        let (head, tail) = split_remainder(v)?;
        let params = match AltrepLanguageParams::parse(head.as_slice()) {
            Ok(p) => p,
            Err(e) => {
                return Err(ParseError::Parameters(e));
            },
        };
        let value = match Text::try_from(tail.as_slice()) {
            Ok(x) => x,
            Err(e) => {
                return Err(ParseError::Value(e));
            },
        };
        Ok(Resources { value, params })
    }

    /// The property's value.
    pub fn value(&self) -> (r: &Text)
        ensures
            *r == self.spec_value(),
    {
        &self.value
    }

    /// The property's parameters.
    pub fn params(&self) -> (r: &AltrepLanguageParams)
        ensures
            *r == self.spec_params(),
    {
        &self.params
    }
}

impl Ical for Resources {
    /// The content line: `RESOURCES`, the parameters, `:`, the value.
    open spec fn ical(&self) -> Seq<u8> {
        "RESOURCES".spec_bytes() + self.spec_params().ical() + seq![COLON] + self.spec_value().ical()
    }

    proof fn lemma_ical_valid(&self) {
        self.spec_params().lemma_ical_valid();
        self.spec_value().lemma_ical_valid();
        lemma_line_valid("RESOURCES", self.spec_params().ical(), self.spec_value().ical());
    }

    fn write_to(&self, out: &mut Vec<u8>) {
        append_str(out, "RESOURCES");
        self.params.write_to(out);
        out.push(COLON);
        self.value.write_to(out);
        assert(out@ =~= old(out)@ + self.ical());
    }
}
/// Builds a [`Resources`] with its `ALTREP` and `LANGUAGE` parameters.
#[derive(Debug)]
pub struct ResourcesBuilder {
    value: Text,
    params: AltrepLanguageParams,
}

impl ResourcesBuilder {
    /// The value being built.
    pub closed spec fn spec_value(&self) -> Text {
        self.value
    }

    /// The parameters set so far.
    pub closed spec fn spec_params(&self) -> AltrepLanguageParams {
        self.params
    }

    /// A builder for `value`, with no parameters.
    pub fn new(value: Text) -> (r: ResourcesBuilder)
        ensures
            r.spec_value() == value,
            r.spec_params().spec_altrep() is None,
            r.spec_params().spec_language() is None,
            r.spec_params().spec_shared().iana_bytes() == Seq::<Seq<u8>>::empty(),
            r.spec_params().spec_shared().xname_bytes() == Seq::<Seq<u8>>::empty(),
    {
        ResourcesBuilder { value, params: AltrepLanguageParams::new() }
    }

    /// Sets `ALTREP`.
    pub fn altrep(self, altrep: Altrep) -> (r: ResourcesBuilder)
        ensures
            r.spec_value() == self.spec_value(),
            r.spec_params().spec_altrep() == Some(altrep),
            r.spec_params().spec_language() == self.spec_params().spec_language(),
            r.spec_params().spec_shared() == self.spec_params().spec_shared(),
    {
        let mut b = self;
        b.params.set_altrep(altrep);
        b
    }

    /// Sets `LANGUAGE`.
    pub fn language(self, language: Language) -> (r: ResourcesBuilder)
        ensures
            r.spec_value() == self.spec_value(),
            r.spec_params().spec_language() == Some(language),
            r.spec_params().spec_altrep() == self.spec_params().spec_altrep(),
            r.spec_params().spec_shared() == self.spec_params().spec_shared(),
    {
        let mut b = self;
        b.params.set_language(language);
        b
    }

    /// The property.
    pub fn build(self) -> (r: Resources)
        ensures
            r.spec_value() == self.spec_value(),
            r.spec_params() == self.spec_params(),
    {
        Resources { value: self.value, params: self.params }
    }
}

/// A short summary or subject of a component (RFC 5545 §3.8.1.12).
#[derive(Debug)]
pub struct Summary {
    value: Text,
    params: AltrepLanguageParams,
}

impl Summary {
    /// The property's value.
    pub closed spec fn spec_value(&self) -> Text {
        self.value
    }

    /// The property's parameters.
    pub closed spec fn spec_params(&self) -> AltrepLanguageParams {
        self.params
    }

    /// Whether the rest of a content line, after the name, parses.
    pub open spec fn parses(v: Seq<u8>) -> bool {
        match first_unquoted(v, COLON) {
            Some(k) => AltrepLanguageParams::parses(param_pieces(v.take(k))) && Text::parses(v.skip(k + 1)),
            None => false,
        }
    }

    /// Whether this property is what the rest of a content line parses to.
    pub open spec fn describes(&self, v: Seq<u8>) -> bool {
        match first_unquoted(v, COLON) {
            Some(k) => self.spec_params().describes(param_pieces(v.take(k))) && Text::accepts(v.skip(k + 1), self.spec_value()),
            None => false,
        }
    }

    /// Parses the rest of a content line, after the name: the parameters,
    /// `:`, the value.
    pub fn try_from(v: &[u8]) -> (r: Result<Summary, ParseError>)
        ensures
            r is Ok <==> Summary::parses(v@),
            r matches Ok(p) ==> p.describes(v@),
            first_unquoted(v@, COLON) is None ==> r matches Err(ParseError::Parameter { .. }),
    {
        let (head, tail) = split_remainder(v)?;
        let params = match AltrepLanguageParams::parse(head.as_slice()) {
            Ok(p) => p,
            Err(e) => {
                return Err(ParseError::Parameters(e));
            },
        };
        let value = match Text::try_from(tail.as_slice()) {
            Ok(x) => x,
            Err(e) => {
                return Err(ParseError::Value(e));
            },
        };
        Ok(Summary { value, params })
    }

    /// The property's value.
    pub fn value(&self) -> (r: &Text)
        ensures
            *r == self.spec_value(),
    {
        &self.value
    }

    /// The property's parameters.
    pub fn params(&self) -> (r: &AltrepLanguageParams)
        ensures
            *r == self.spec_params(),
    {
        &self.params
    }
}

impl Ical for Summary {
    /// The content line: `SUMMARY`, the parameters, `:`, the value.
    open spec fn ical(&self) -> Seq<u8> {
        "SUMMARY".spec_bytes() + self.spec_params().ical() + seq![COLON] + self.spec_value().ical()
    }

    proof fn lemma_ical_valid(&self) {
        self.spec_params().lemma_ical_valid();
        self.spec_value().lemma_ical_valid();
        lemma_line_valid("SUMMARY", self.spec_params().ical(), self.spec_value().ical());
    }

    fn write_to(&self, out: &mut Vec<u8>) {
        append_str(out, "SUMMARY");
        self.params.write_to(out);
        out.push(COLON);
        self.value.write_to(out);
        assert(out@ =~= old(out)@ + self.ical());
    }
}
/// Builds a [`Summary`] with its `ALTREP` and `LANGUAGE` parameters.
#[derive(Debug)]
pub struct SummaryBuilder {
    value: Text,
    params: AltrepLanguageParams,
}

impl SummaryBuilder {
    /// The value being built.
    pub closed spec fn spec_value(&self) -> Text {
        self.value
    }

    /// The parameters set so far.
    pub closed spec fn spec_params(&self) -> AltrepLanguageParams {
        self.params
    }

    /// A builder for `value`, with no parameters.
    pub fn new(value: Text) -> (r: SummaryBuilder)
        ensures
            r.spec_value() == value,
            r.spec_params().spec_altrep() is None,
            r.spec_params().spec_language() is None,
            r.spec_params().spec_shared().iana_bytes() == Seq::<Seq<u8>>::empty(),
            r.spec_params().spec_shared().xname_bytes() == Seq::<Seq<u8>>::empty(),
    {
        SummaryBuilder { value, params: AltrepLanguageParams::new() }
    }

    /// Sets `ALTREP`.
    pub fn altrep(self, altrep: Altrep) -> (r: SummaryBuilder)
        ensures
            r.spec_value() == self.spec_value(),
            r.spec_params().spec_altrep() == Some(altrep),
            r.spec_params().spec_language() == self.spec_params().spec_language(),
            r.spec_params().spec_shared() == self.spec_params().spec_shared(),
    {
        let mut b = self;
        b.params.set_altrep(altrep);
        b
    }

    /// Sets `LANGUAGE`.
    pub fn language(self, language: Language) -> (r: SummaryBuilder)
        ensures
            r.spec_value() == self.spec_value(),
            r.spec_params().spec_language() == Some(language),
            r.spec_params().spec_altrep() == self.spec_params().spec_altrep(),
            r.spec_params().spec_shared() == self.spec_params().spec_shared(),
    {
        let mut b = self;
        b.params.set_language(language);
        b
    }

    /// The property.
    pub fn build(self) -> (r: Summary)
        ensures
            r.spec_value() == self.spec_value(),
            r.spec_params() == self.spec_params(),
    {
        Summary { value: self.value, params: self.params }
    }
}

/// How complete a to-do is, in percent, from 0 to 100 (RFC 5545
/// §3.8.1.8).
#[derive(Debug)]
pub struct PercentComplete {
    value: Integer,
    params: SharedParams,
}

impl PercentComplete {
    /// The property's value.
    pub closed spec fn spec_value(&self) -> Integer {
        self.value
    }

    /// The property's parameters.
    pub closed spec fn spec_params(&self) -> SharedParams {
        self.params
    }

    /// Whether the rest of a content line, after the name, parses.
    pub open spec fn parses(v: Seq<u8>) -> bool {
        match first_unquoted(v, COLON) {
            Some(k) => SharedParams::parses(param_pieces(v.take(k))) && Integer::parses(v.skip(k + 1)) && (integer_of(v.skip(k + 1)) matches Some(n) && 0 <= n <= 100),
            None => false,
        }
    }

    /// Whether this property is what the rest of a content line parses to.
    pub open spec fn describes(&self, v: Seq<u8>) -> bool {
        match first_unquoted(v, COLON) {
            Some(k) => self.spec_params().describes(param_pieces(v.take(k))) && Integer::accepts(v.skip(k + 1), self.spec_value()),
            None => false,
        }
    }

    /// Parses the rest of a content line, after the name: the parameters,
    /// `:`, the value.
    pub fn try_from(v: &[u8]) -> (r: Result<PercentComplete, ParseError>)
        ensures
            r is Ok <==> PercentComplete::parses(v@),
            r matches Ok(p) ==> p.describes(v@),
            first_unquoted(v@, COLON) is None ==> r matches Err(ParseError::Parameter { .. }),
    {
        let (head, tail) = split_remainder(v)?;
        let params = match SharedParams::parse(head.as_slice()) {
            Ok(p) => p,
            Err(e) => {
                return Err(ParseError::Parameters(e));
            },
        };
        let value = match Integer::try_from(tail.as_slice()) {
            Ok(x) => x,
            Err(e) => {
                return Err(ParseError::Value(e));
            },
        };
        if !(0 <= value.value() && value.value() <= 100) {
            return Err(ParseError::Parameter {
                expected: "PERCENT-COMPLETE value in 0..=100".to_owned(),
                received: Some(value.to_string()),
            });
        }
        Ok(PercentComplete { value, params })
    }

    /// The property with no parameters, when `value` is in range.
    pub fn new(value: Integer) -> (r: Result<PercentComplete, PropertyError>)
        ensures
            r is Ok <==> 0 <= value.spec_value() <= 100,
            r matches Ok(p) ==> p.spec_value() == value,
            r matches Err(e) ==> e is InvalidPercentComplete,
    {
        if 0 <= value.value() && value.value() <= 100 {
            Ok(PercentComplete { value, params: SharedParams::new() })
        } else {
            Err(PropertyError::InvalidPercentComplete)
        }
    }

    /// The property's value.
    pub fn value(&self) -> (r: &Integer)
        ensures
            *r == self.spec_value(),
    {
        &self.value
    }

    /// The property's parameters.
    pub fn params(&self) -> (r: &SharedParams)
        ensures
            *r == self.spec_params(),
    {
        &self.params
    }
}

impl Ical for PercentComplete {
    /// The content line: `PERCENT-COMPLETE`, the parameters, `:`, the value.
    open spec fn ical(&self) -> Seq<u8> {
        "PERCENT-COMPLETE".spec_bytes() + self.spec_params().ical() + seq![COLON] + self.spec_value().ical()
    }

    proof fn lemma_ical_valid(&self) {
        self.spec_params().lemma_ical_valid();
        self.spec_value().lemma_ical_valid();
        lemma_line_valid("PERCENT-COMPLETE", self.spec_params().ical(), self.spec_value().ical());
    }

    fn write_to(&self, out: &mut Vec<u8>) {
        append_str(out, "PERCENT-COMPLETE");
        self.params.write_to(out);
        out.push(COLON);
        self.value.write_to(out);
        assert(out@ =~= old(out)@ + self.ical());
    }
}
/// The relative priority of a component, from 0 (undefined) through 1
/// (highest) to 9 (lowest) (RFC 5545 §3.8.1.9).
#[derive(Debug)]
pub struct Priority {
    value: Integer,
    params: SharedParams,
}

impl Priority {
    /// The property's value.
    pub closed spec fn spec_value(&self) -> Integer {
        self.value
    }

    /// The property's parameters.
    pub closed spec fn spec_params(&self) -> SharedParams {
        self.params
    }

    /// Whether the rest of a content line, after the name, parses.
    pub open spec fn parses(v: Seq<u8>) -> bool {
        match first_unquoted(v, COLON) {
            Some(k) => SharedParams::parses(param_pieces(v.take(k))) && Integer::parses(v.skip(k + 1)) && (integer_of(v.skip(k + 1)) matches Some(n) && 0 <= n <= 9),
            None => false,
        }
    }

    /// Whether this property is what the rest of a content line parses to.
    pub open spec fn describes(&self, v: Seq<u8>) -> bool {
        match first_unquoted(v, COLON) {
            Some(k) => self.spec_params().describes(param_pieces(v.take(k))) && Integer::accepts(v.skip(k + 1), self.spec_value()),
            None => false,
        }
    }

    /// Parses the rest of a content line, after the name: the parameters,
    /// `:`, the value.
    pub fn try_from(v: &[u8]) -> (r: Result<Priority, ParseError>)
        ensures
            r is Ok <==> Priority::parses(v@),
            r matches Ok(p) ==> p.describes(v@),
            first_unquoted(v@, COLON) is None ==> r matches Err(ParseError::Parameter { .. }),
    {
        let (head, tail) = split_remainder(v)?;
        let params = match SharedParams::parse(head.as_slice()) {
            Ok(p) => p,
            Err(e) => {
                return Err(ParseError::Parameters(e));
            },
        };
        let value = match Integer::try_from(tail.as_slice()) {
            Ok(x) => x,
            Err(e) => {
                return Err(ParseError::Value(e));
            },
        };
        if !(0 <= value.value() && value.value() <= 9) {
            return Err(ParseError::Parameter {
                expected: "PRIORITY value in 0..=9".to_owned(),
                received: Some(value.to_string()),
            });
        }
        Ok(Priority { value, params })
    }

    /// The property with no parameters, when `value` is in range.
    pub fn new(value: Integer) -> (r: Result<Priority, PropertyError>)
        ensures
            r is Ok <==> 0 <= value.spec_value() <= 9,
            r matches Ok(p) ==> p.spec_value() == value,
            r matches Err(e) ==> e is InvalidPriority,
    {
        if 0 <= value.value() && value.value() <= 9 {
            Ok(Priority { value, params: SharedParams::new() })
        } else {
            Err(PropertyError::InvalidPriority)
        }
    }

    /// The property's value.
    pub fn value(&self) -> (r: &Integer)
        ensures
            *r == self.spec_value(),
    {
        &self.value
    }

    /// The property's parameters.
    pub fn params(&self) -> (r: &SharedParams)
        ensures
            *r == self.spec_params(),
    {
        &self.params
    }
}

impl Ical for Priority {
    /// The content line: `PRIORITY`, the parameters, `:`, the value.
    open spec fn ical(&self) -> Seq<u8> {
        "PRIORITY".spec_bytes() + self.spec_params().ical() + seq![COLON] + self.spec_value().ical()
    }

    proof fn lemma_ical_valid(&self) {
        self.spec_params().lemma_ical_valid();
        self.spec_value().lemma_ical_valid();
        lemma_line_valid("PRIORITY", self.spec_params().ical(), self.spec_value().ical());
    }

    fn write_to(&self, out: &mut Vec<u8>) {
        append_str(out, "PRIORITY");
        self.params.write_to(out);
        out.push(COLON);
        self.value.write_to(out);
        assert(out@ =~= old(out)@ + self.ical());
    }
}
/// The overall status of a component (RFC 5545 §3.8.1.11).
#[derive(Debug)]
pub struct Status {
    value: StatusValue,
    params: SharedParams,
}

impl Status {
    /// The property's value.
    pub closed spec fn spec_value(&self) -> StatusValue {
        self.value
    }

    /// The property's parameters.
    pub closed spec fn spec_params(&self) -> SharedParams {
        self.params
    }

    /// Whether the rest of a content line, after the name, parses.
    pub open spec fn parses(v: Seq<u8>) -> bool {
        match first_unquoted(v, COLON) {
            Some(k) => SharedParams::parses(param_pieces(v.take(k))) && StatusValue::parses(v.skip(k + 1)),
            None => false,
        }
    }

    /// Whether this property is what the rest of a content line parses to.
    pub open spec fn describes(&self, v: Seq<u8>) -> bool {
        match first_unquoted(v, COLON) {
            Some(k) => self.spec_params().describes(param_pieces(v.take(k))) && StatusValue::accepts(v.skip(k + 1), self.spec_value()),
            None => false,
        }
    }

    /// Parses the rest of a content line, after the name: the parameters,
    /// `:`, the value.
    pub fn try_from(v: &[u8]) -> (r: Result<Status, ParseError>)
        ensures
            r is Ok <==> Status::parses(v@),
            r matches Ok(p) ==> p.describes(v@),
            first_unquoted(v@, COLON) is None ==> r matches Err(ParseError::Parameter { .. }),
    {
        let (head, tail) = split_remainder(v)?;
        let params = match SharedParams::parse(head.as_slice()) {
            Ok(p) => p,
            Err(e) => {
                return Err(ParseError::Parameters(e));
            },
        };
        let value = match StatusValue::try_from(tail.as_slice()) {
            Ok(x) => x,
            Err(e) => {
                return Err(ParseError::Value(e));
            },
        };
        Ok(Status { value, params })
    }

    /// The property with no parameters.
    pub fn new(value: StatusValue) -> (r: Status)
        ensures
            r.spec_value() == value,
            r.spec_params().iana_bytes() == Seq::<Seq<u8>>::empty(),
            r.spec_params().xname_bytes() == Seq::<Seq<u8>>::empty(),
    {
        Status { value, params: SharedParams::new() }
    }

    /// The property's value.
    pub fn value(&self) -> (r: &StatusValue)
        ensures
            *r == self.spec_value(),
    {
        &self.value
    }

    /// The property's parameters.
    pub fn params(&self) -> (r: &SharedParams)
        ensures
            *r == self.spec_params(),
    {
        &self.params
    }
}

impl Ical for Status {
    /// The content line: `STATUS`, the parameters, `:`, the value.
    open spec fn ical(&self) -> Seq<u8> {
        "STATUS".spec_bytes() + self.spec_params().ical() + seq![COLON] + self.spec_value().ical()
    }

    proof fn lemma_ical_valid(&self) {
        self.spec_params().lemma_ical_valid();
        self.spec_value().lemma_ical_valid();
        lemma_line_valid("STATUS", self.spec_params().ical(), self.spec_value().ical());
    }

    fn write_to(&self, out: &mut Vec<u8>) {
        append_str(out, "STATUS");
        self.params.write_to(out);
        out.push(COLON);
        self.value.write_to(out);
        assert(out@ =~= old(out)@ + self.ical());
    }
}
/// The statuses a component can have: `TENTATIVE`, `CONFIRMED` and
/// `CANCELLED` for events, `NEEDS-ACTION`, `COMPLETED`, `IN-PROCESS` and
/// `CANCELLED` for to-dos, `DRAFT`, `FINAL` and `CANCELLED` for journals.
#[derive(Debug)]
pub enum StatusValue {
    /// Tentative.
    Tentative,
    /// Definite.
    Confirmed,
    /// Cancelled.
    Cancelled,
    /// Needs action.
    NeedsAction,
    /// Completed.
    Completed,
    /// In process.
    InProcess,
    /// Draft.
    Draft,
    /// Final.
    Final,
}

impl StatusValue {
    /// The keyword value `v` spells, if it spells one.
    pub open spec fn keyword(v: Seq<u8>) -> Option<StatusValue> {
        if v == "TENTATIVE".spec_bytes() {
            Some(StatusValue::Tentative)
        } else if v == "CONFIRMED".spec_bytes() {
            Some(StatusValue::Confirmed)
        } else if v == "CANCELLED".spec_bytes() {
            Some(StatusValue::Cancelled)
        } else if v == "NEEDS-ACTION".spec_bytes() {
            Some(StatusValue::NeedsAction)
        } else if v == "COMPLETED".spec_bytes() {
            Some(StatusValue::Completed)
        } else if v == "IN-PROCESS".spec_bytes() {
            Some(StatusValue::InProcess)
        } else if v == "DRAFT".spec_bytes() {
            Some(StatusValue::Draft)
        } else if v == "FINAL".spec_bytes() {
            Some(StatusValue::Final)
        } else {
            None
        }
    }

    /// A keyword is written back as itself: whatever keyword value `v`
    /// reads as is written as `v`.
    pub proof fn lemma_keyword_written(v: Seq<u8>, p: StatusValue)
        requires
            StatusValue::keyword(v) == Some(p),
        ensures
            p.ical() == v,
    {
    }

    /// Whether `v` parses: only the keywords do.
    pub open spec fn parses(v: Seq<u8>) -> bool {
        StatusValue::keyword(v) is Some
    }

    /// Whether `p` is what `v` parses to.
    pub open spec fn accepts(v: Seq<u8>, p: StatusValue) -> bool {
        StatusValue::keyword(v) == Some(p)
    }

    /// Parses the parameter value.
    pub fn try_from(v: &[u8]) -> (r: Result<StatusValue, ValueError>)
        ensures
            r is Ok <==> StatusValue::parses(v@),
            r matches Ok(p) ==> StatusValue::accepts(v@, p),
            r matches Err(e) ==> e is Malformed,
    {
        if eq_str(v, "TENTATIVE") {
            Ok(StatusValue::Tentative)
        } else if eq_str(v, "CONFIRMED") {
            Ok(StatusValue::Confirmed)
        } else if eq_str(v, "CANCELLED") {
            Ok(StatusValue::Cancelled)
        } else if eq_str(v, "NEEDS-ACTION") {
            Ok(StatusValue::NeedsAction)
        } else if eq_str(v, "COMPLETED") {
            Ok(StatusValue::Completed)
        } else if eq_str(v, "IN-PROCESS") {
            Ok(StatusValue::InProcess)
        } else if eq_str(v, "DRAFT") {
            Ok(StatusValue::Draft)
        } else if eq_str(v, "FINAL") {
            Ok(StatusValue::Final)
        } else {
            Err(malformed_value("a valid STATUS token", v))
        }
    }
}

impl Ical for StatusValue {
    open spec fn ical(&self) -> Seq<u8> {
        match self {
            StatusValue::Tentative => "TENTATIVE".spec_bytes(),
            StatusValue::Confirmed => "CONFIRMED".spec_bytes(),
            StatusValue::Cancelled => "CANCELLED".spec_bytes(),
            StatusValue::NeedsAction => "NEEDS-ACTION".spec_bytes(),
            StatusValue::Completed => "COMPLETED".spec_bytes(),
            StatusValue::InProcess => "IN-PROCESS".spec_bytes(),
            StatusValue::Draft => "DRAFT".spec_bytes(),
            StatusValue::Final => "FINAL".spec_bytes(),
        }
    }

    proof fn lemma_ical_valid(&self) {
        broadcast use vstd::utf8::encode_utf8_valid_utf8;

    }

    fn write_to(&self, out: &mut Vec<u8>) {
        match self {
            StatusValue::Tentative => append_str(out, "TENTATIVE"),
            StatusValue::Confirmed => append_str(out, "CONFIRMED"),
            StatusValue::Cancelled => append_str(out, "CANCELLED"),
            StatusValue::NeedsAction => append_str(out, "NEEDS-ACTION"),
            StatusValue::Completed => append_str(out, "COMPLETED"),
            StatusValue::InProcess => append_str(out, "IN-PROCESS"),
            StatusValue::Draft => append_str(out, "DRAFT"),
            StatusValue::Final => append_str(out, "FINAL"),
        }
    }
}
/// A color for displaying a calendar or component, a CSS3 color name (RFC
/// 7986 §5.9).
#[derive(Debug)]
pub struct Color {
    value: Text,
    params: SharedParams,
}

impl Color {
    /// The property's value.
    pub closed spec fn spec_value(&self) -> Text {
        self.value
    }

    /// The property's parameters.
    pub closed spec fn spec_params(&self) -> SharedParams {
        self.params
    }

    /// Whether the rest of a content line, after the name, parses.
    pub open spec fn parses(v: Seq<u8>) -> bool {
        match first_unquoted(v, COLON) {
            Some(k) => SharedParams::parses(param_pieces(v.take(k))) && Text::parses(v.skip(k + 1)),
            None => false,
        }
    }

    /// Whether this property is what the rest of a content line parses to.
    pub open spec fn describes(&self, v: Seq<u8>) -> bool {
        match first_unquoted(v, COLON) {
            Some(k) => self.spec_params().describes(param_pieces(v.take(k))) && Text::accepts(v.skip(k + 1), self.spec_value()),
            None => false,
        }
    }

    /// Parses the rest of a content line, after the name: the parameters,
    /// `:`, the value.
    pub fn try_from(v: &[u8]) -> (r: Result<Color, ParseError>)
        ensures
            r is Ok <==> Color::parses(v@),
            r matches Ok(p) ==> p.describes(v@),
            first_unquoted(v@, COLON) is None ==> r matches Err(ParseError::Parameter { .. }),
    {
        let (head, tail) = split_remainder(v)?;
        let params = match SharedParams::parse(head.as_slice()) {
            Ok(p) => p,
            Err(e) => {
                return Err(ParseError::Parameters(e));
            },
        };
        let value = match Text::try_from(tail.as_slice()) {
            Ok(x) => x,
            Err(e) => {
                return Err(ParseError::Value(e));
            },
        };
        Ok(Color { value, params })
    }

    /// The property with no parameters.
    pub fn new(value: Text) -> (r: Color)
        ensures
            r.spec_value() == value,
            r.spec_params().iana_bytes() == Seq::<Seq<u8>>::empty(),
            r.spec_params().xname_bytes() == Seq::<Seq<u8>>::empty(),
    {
        Color { value, params: SharedParams::new() }
    }

    /// The property's value.
    pub fn value(&self) -> (r: &Text)
        ensures
            *r == self.spec_value(),
    {
        &self.value
    }

    /// The property's parameters.
    pub fn params(&self) -> (r: &SharedParams)
        ensures
            *r == self.spec_params(),
    {
        &self.params
    }
}

impl Ical for Color {
    /// The content line: `COLOR`, the parameters, `:`, the value.
    open spec fn ical(&self) -> Seq<u8> {
        "COLOR".spec_bytes() + self.spec_params().ical() + seq![COLON] + self.spec_value().ical()
    }

    proof fn lemma_ical_valid(&self) {
        self.spec_params().lemma_ical_valid();
        self.spec_value().lemma_ical_valid();
        lemma_line_valid("COLOR", self.spec_params().ical(), self.spec_value().ical());
    }

    fn write_to(&self, out: &mut Vec<u8>) {
        append_str(out, "COLOR");
        self.params.write_to(out);
        out.push(COLON);
        self.value.write_to(out);
        assert(out@ =~= old(out)@ + self.ical());
    }
}
/// How to join a conference (RFC 7986 §5.11).
#[derive(Debug)]
pub struct Conference {
    value: Uri,
    params: ConferenceParams,
}

impl Conference {
    /// The property's value.
    pub closed spec fn spec_value(&self) -> Uri {
        self.value
    }

    /// The property's parameters.
    pub closed spec fn spec_params(&self) -> ConferenceParams {
        self.params
    }

    /// Whether the rest of a content line, after the name, parses.
    pub open spec fn parses(v: Seq<u8>) -> bool {
        match first_unquoted(v, COLON) {
            Some(k) => ConferenceParams::parses(param_pieces(v.take(k))) && Uri::parses(v.skip(k + 1)),
            None => false,
        }
    }

    /// Whether this property is what the rest of a content line parses to.
    pub open spec fn describes(&self, v: Seq<u8>) -> bool {
        match first_unquoted(v, COLON) {
            Some(k) => self.spec_params().describes(param_pieces(v.take(k))) && Uri::accepts(v.skip(k + 1), self.spec_value()),
            None => false,
        }
    }

    /// Parses the rest of a content line, after the name: the parameters,
    /// `:`, the value.
    pub fn try_from(v: &[u8]) -> (r: Result<Conference, ParseError>)
        ensures
            r is Ok <==> Conference::parses(v@),
            r matches Ok(p) ==> p.describes(v@),
            first_unquoted(v@, COLON) is None ==> r matches Err(ParseError::Parameter { .. }),
    {
        let (head, tail) = split_remainder(v)?;
        let params = match ConferenceParams::parse(head.as_slice()) {
            Ok(p) => p,
            Err(e) => {
                return Err(ParseError::Parameters(e));
            },
        };
        let value = match Uri::try_from(tail.as_slice()) {
            Ok(x) => x,
            Err(e) => {
                return Err(ParseError::Value(e));
            },
        };
        Ok(Conference { value, params })
    }

    /// The property's value.
    pub fn value(&self) -> (r: &Uri)
        ensures
            *r == self.spec_value(),
    {
        &self.value
    }

    /// The property's parameters.
    pub fn params(&self) -> (r: &ConferenceParams)
        ensures
            *r == self.spec_params(),
    {
        &self.params
    }
}

impl Ical for Conference {
    /// The content line: `CONFERENCE`, the parameters, `:`, the value.
    open spec fn ical(&self) -> Seq<u8> {
        "CONFERENCE".spec_bytes() + self.spec_params().ical() + seq![COLON] + self.spec_value().ical()
    }

    proof fn lemma_ical_valid(&self) {
        self.spec_params().lemma_ical_valid();
        self.spec_value().lemma_ical_valid();
        lemma_line_valid("CONFERENCE", self.spec_params().ical(), self.spec_value().ical());
    }

    fn write_to(&self, out: &mut Vec<u8>) {
        append_str(out, "CONFERENCE");
        self.params.write_to(out);
        out.push(COLON);
        self.value.write_to(out);
        assert(out@ =~= old(out)@ + self.ical());
    }
}
/// Builds a [`Conference`] with its `FEATURE`, `LABEL` and `LANGUAGE`
/// parameters.
#[derive(Debug)]
pub struct ConferenceBuilder {
    value: Uri,
    params: ConferenceParams,
}

impl ConferenceBuilder {
    /// The value being built.
    pub closed spec fn spec_value(&self) -> Uri {
        self.value
    }

    /// The parameters set so far.
    pub closed spec fn spec_params(&self) -> ConferenceParams {
        self.params
    }

    /// A builder for `value`, with no parameters.
    pub fn new(value: Uri) -> (r: ConferenceBuilder)
        ensures
            r.spec_value() == value,
            r.spec_params().spec_feature() is None,
            r.spec_params().spec_label() is None,
            r.spec_params().spec_language() is None,
            r.spec_params().spec_shared().iana_bytes() == Seq::<Seq<u8>>::empty(),
            r.spec_params().spec_shared().xname_bytes() == Seq::<Seq<u8>>::empty(),
    {
        ConferenceBuilder { value, params: ConferenceParams::new() }
    }

    /// Sets `FEATURE`.
    pub fn feature(self, feature: Feature) -> (r: ConferenceBuilder)
        ensures
            r.spec_value() == self.spec_value(),
            r.spec_params().spec_feature() == Some(feature),
            r.spec_params().spec_label() == self.spec_params().spec_label(),
            r.spec_params().spec_language() == self.spec_params().spec_language(),
            r.spec_params().spec_shared() == self.spec_params().spec_shared(),
    {
        let mut b = self;
        b.params.set_feature(feature);
        b
    }

    /// Sets `LABEL`.
    pub fn label(self, label: Label) -> (r: ConferenceBuilder)
        ensures
            r.spec_value() == self.spec_value(),
            r.spec_params().spec_label() == Some(label),
            r.spec_params().spec_feature() == self.spec_params().spec_feature(),
            r.spec_params().spec_language() == self.spec_params().spec_language(),
            r.spec_params().spec_shared() == self.spec_params().spec_shared(),
    {
        let mut b = self;
        b.params.set_label(label);
        b
    }

    /// Sets `LANGUAGE`.
    pub fn language(self, language: Language) -> (r: ConferenceBuilder)
        ensures
            r.spec_value() == self.spec_value(),
            r.spec_params().spec_language() == Some(language),
            r.spec_params().spec_feature() == self.spec_params().spec_feature(),
            r.spec_params().spec_label() == self.spec_params().spec_label(),
            r.spec_params().spec_shared() == self.spec_params().spec_shared(),
    {
        let mut b = self;
        b.params.set_language(language);
        b
    }

    /// The property.
    pub fn build(self) -> (r: Conference)
        ensures
            r.spec_value() == self.spec_value(),
            r.spec_params() == self.spec_params(),
    {
        Conference { value: self.value, params: self.params }
    }
}

/// Where a refreshed version of the calendar can be found (RFC 7986
/// §5.8).
#[derive(Debug)]
pub struct Source {
    value: Uri,
    params: SharedParams,
}

impl Source {
    /// The property's value.
    pub closed spec fn spec_value(&self) -> Uri {
        self.value
    }

    /// The property's parameters.
    pub closed spec fn spec_params(&self) -> SharedParams {
        self.params
    }

    /// Whether the rest of a content line, after the name, parses.
    pub open spec fn parses(v: Seq<u8>) -> bool {
        match first_unquoted(v, COLON) {
            Some(k) => SharedParams::parses(param_pieces(v.take(k))) && Uri::parses(v.skip(k + 1)),
            None => false,
        }
    }

    /// Whether this property is what the rest of a content line parses to.
    pub open spec fn describes(&self, v: Seq<u8>) -> bool {
        match first_unquoted(v, COLON) {
            Some(k) => self.spec_params().describes(param_pieces(v.take(k))) && Uri::accepts(v.skip(k + 1), self.spec_value()),
            None => false,
        }
    }

    /// Parses the rest of a content line, after the name: the parameters,
    /// `:`, the value.
    pub fn try_from(v: &[u8]) -> (r: Result<Source, ParseError>)
        ensures
            r is Ok <==> Source::parses(v@),
            r matches Ok(p) ==> p.describes(v@),
            first_unquoted(v@, COLON) is None ==> r matches Err(ParseError::Parameter { .. }),
    {
        let (head, tail) = split_remainder(v)?;
        let params = match SharedParams::parse(head.as_slice()) {
            Ok(p) => p,
            Err(e) => {
                return Err(ParseError::Parameters(e));
            },
        };
        let value = match Uri::try_from(tail.as_slice()) {
            Ok(x) => x,
            Err(e) => {
                return Err(ParseError::Value(e));
            },
        };
        Ok(Source { value, params })
    }

    /// The property with no parameters.
    pub fn new(value: Uri) -> (r: Source)
        ensures
            r.spec_value() == value,
            r.spec_params().iana_bytes() == Seq::<Seq<u8>>::empty(),
            r.spec_params().xname_bytes() == Seq::<Seq<u8>>::empty(),
    {
        Source { value, params: SharedParams::new() }
    }

    /// The property's value.
    pub fn value(&self) -> (r: &Uri)
        ensures
            *r == self.spec_value(),
    {
        &self.value
    }

    /// The property's parameters.
    pub fn params(&self) -> (r: &SharedParams)
        ensures
            *r == self.spec_params(),
    {
        &self.params
    }
}

impl Ical for Source {
    /// The content line: `SOURCE`, the parameters, `:`, the value.
    open spec fn ical(&self) -> Seq<u8> {
        "SOURCE".spec_bytes() + self.spec_params().ical() + seq![COLON] + self.spec_value().ical()
    }

    proof fn lemma_ical_valid(&self) {
        self.spec_params().lemma_ical_valid();
        self.spec_value().lemma_ical_valid();
        lemma_line_valid("SOURCE", self.spec_params().ical(), self.spec_value().ical());
    }

    fn write_to(&self, out: &mut Vec<u8>) {
        append_str(out, "SOURCE");
        self.params.write_to(out);
        out.push(COLON);
        self.value.write_to(out);
        assert(out@ =~= old(out)@ + self.ical());
    }
}

/// The latitude and the longitude in the value of a `GEO` property: the
/// text before its first `;` and the text after it.
pub open spec fn geo_parts(w: Seq<u8>) -> Option<(Seq<u8>, Seq<u8>)> {
    match first_byte(w, SEMICOLON) {
        Some(k) => Some((w.take(k), w.skip(k + 1))),
        None => None,
    }
}

/// Whether the value of a `GEO` property holds two numbers.
pub open spec fn geo_value_parses(w: Seq<u8>) -> bool {
    geo_parts(w) matches Some((a, b)) && Float::parses(a) && Float::parses(b)
}

/// Whether the latitude in the value of a `GEO` property is within 90
/// degrees of the equator.
pub open spec fn geo_latitude_ok(w: Seq<u8>) -> bool {
    geo_parts(w) matches Some((a, b)) && float_of(a) matches Some(f) && Float::within_90(f)
}

/// A position on Earth, as a latitude and a longitude in degrees (RFC 5545
/// §3.8.1.6), held exactly as written, less leading and trailing zeros.
#[derive(Debug)]
pub struct Geo {
    value: Pair<Float>,
    params: SharedParams,
}

impl Geo {
    /// The latitude.
    pub closed spec fn spec_latitude(&self) -> (bool, Seq<u8>, Seq<u8>) {
        self.value.0.spec_view()
    }

    /// The longitude.
    pub closed spec fn spec_longitude(&self) -> (bool, Seq<u8>, Seq<u8>) {
        self.value.1.spec_view()
    }

    /// The property's parameters.
    pub closed spec fn spec_params(&self) -> SharedParams {
        self.params
    }

    /// Whether the rest of a content line, after the name, parses: two
    /// numbers, and a latitude within 90 degrees.
    pub open spec fn parses(v: Seq<u8>) -> bool {
        match first_unquoted(v, COLON) {
            Some(k) => SharedParams::parses(param_pieces(v.take(k))) && geo_value_parses(v.skip(k + 1))
                && geo_latitude_ok(v.skip(k + 1)),
            None => false,
        }
    }

    /// Whether this property is what the rest of a content line parses to.
    pub open spec fn describes(&self, v: Seq<u8>) -> bool {
        match first_unquoted(v, COLON) {
            Some(k) => self.spec_params().describes(param_pieces(v.take(k))) && (geo_parts(
                v.skip(k + 1),
            ) matches Some((a, b)) && float_of(a) == Some(self.spec_latitude()) && float_of(b) == Some(
                self.spec_longitude(),
            )),
            None => false,
        }
    }

    /// Parses the rest of a content line, after the name: the parameters,
    /// `:`, the latitude, `;`, the longitude.
    pub fn try_from(v: &[u8]) -> (r: Result<Geo, ParseError>)
        ensures
            r is Ok <==> Geo::parses(v@),
            r matches Ok(p) ==> p.describes(v@),
            first_unquoted(v@, COLON) is None ==> r matches Err(ParseError::Parameter { .. }),
            (first_unquoted(v@, COLON) matches Some(k) && SharedParams::parses(param_pieces(v@.take(k)))
                && geo_value_parses(v@.skip(k + 1)) && !geo_latitude_ok(v@.skip(k + 1))) ==> r
                matches Err(ParseError::Property(PropertyError::InvalidGeo)),
    {
        let (head, tail) = split_remainder(v)?;
        let params = match SharedParams::parse(head.as_slice()) {
            Ok(p) => p,
            Err(e) => {
                return Err(ParseError::Parameters(e));
            },
        };
        let w = tail.as_slice();
        let k = match find_byte(w, SEMICOLON) {
            Some(k) => k,
            None => {
                return Err(ParseError::Value(malformed_value("a latitude;longitude pair", w)));
            },
        };
        let a = copy_range(w, 0, k);
        let b = copy_range(w, k + 1, w.len());
        assert(a@ =~= w@.take(k as int));
        assert(b@ =~= w@.skip(k + 1));
        let lat = match Float::try_from(a.as_slice()) {
            Ok(x) => x,
            Err(e) => {
                return Err(ParseError::Value(e));
            },
        };
        let lon = match Float::try_from(b.as_slice()) {
            Ok(x) => x,
            Err(e) => {
                return Err(ParseError::Value(e));
            },
        };
        if !lat.is_within_90() {
            return Err(ParseError::Property(PropertyError::InvalidGeo));
        }
        Ok(Geo { value: Pair(lat, lon), params })
    }

    /// The property with no parameters, when the latitude is within 90
    /// degrees.
    pub fn new(value: Pair<Float>) -> (r: Result<Geo, PropertyError>)
        ensures
            r is Ok <==> Float::within_90(value.0.spec_view()),
            r matches Ok(g) ==> g.spec_latitude() == value.0.spec_view() && g.spec_longitude()
                == value.1.spec_view(),
            r matches Err(e) ==> e is InvalidGeo,
    {
        if value.0.is_within_90() {
            Ok(Geo { value, params: SharedParams::new() })
        } else {
            Err(PropertyError::InvalidGeo)
        }
    }

    /// The latitude and the longitude.
    pub fn value(&self) -> (r: &Pair<Float>)
        ensures
            r.0.spec_view() == self.spec_latitude(),
            r.1.spec_view() == self.spec_longitude(),
    {
        &self.value
    }

    /// The property's parameters.
    pub fn params(&self) -> (r: &SharedParams)
        ensures
            *r == self.spec_params(),
    {
        &self.params
    }
}

impl Ical for Geo {
    /// The content line: `GEO`, the parameters, `:`, the latitude, `;`, the
    /// longitude.
    open spec fn ical(&self) -> Seq<u8> {
        "GEO".spec_bytes() + self.spec_params().ical() + seq![COLON] + (float_text(self.spec_latitude())
            + seq![SEMICOLON] + float_text(self.spec_longitude()))
    }

    proof fn lemma_ical_valid(&self) {
        self.spec_params().lemma_ical_valid();
        self.value.0.lemma_ical_valid();
        self.value.1.lemma_ical_valid();
        crate::bytes::lemma_ascii_valid(SEMICOLON);
        vstd::utf8::valid_utf8_concat(float_text(self.spec_latitude()), seq![SEMICOLON]);
        vstd::utf8::valid_utf8_concat(
            float_text(self.spec_latitude()) + seq![SEMICOLON],
            float_text(self.spec_longitude()),
        );
        lemma_line_valid(
            "GEO",
            self.spec_params().ical(),
            float_text(self.spec_latitude()) + seq![SEMICOLON] + float_text(self.spec_longitude()),
        );
    }

    fn write_to(&self, out: &mut Vec<u8>) {
        append_str(out, "GEO");
        self.params.write_to(out);
        out.push(COLON);
        self.value.0.write_to(out);
        out.push(SEMICOLON);
        self.value.1.write_to(out);
        assert(out@ =~= old(out)@ + self.ical());
    }
}

/// How often the calendar should be refreshed (RFC 7986 §5.7).
#[derive(Debug)]
pub struct RefreshInterval {
    value: DurationValue,
    params: SharedParams,
}

impl RefreshInterval {
    /// The property's value.
    pub closed spec fn spec_value(&self) -> DurationValue {
        self.value
    }

    /// The property's parameters.
    pub closed spec fn spec_params(&self) -> SharedParams {
        self.params
    }

    /// Whether the rest of a content line, after the name, parses.
    pub open spec fn parses(v: Seq<u8>) -> bool {
        match first_unquoted(v, COLON) {
            Some(k) => SharedParams::parses(param_pieces(v.take(k))) && DurationValue::parses(v.skip(k + 1)),
            None => false,
        }
    }

    /// Whether this property is what the rest of a content line parses to.
    pub open spec fn describes(&self, v: Seq<u8>) -> bool {
        match first_unquoted(v, COLON) {
            Some(k) => self.spec_params().describes(param_pieces(v.take(k))) && DurationValue::accepts(v.skip(k + 1), self.spec_value()),
            None => false,
        }
    }

    /// Parses the rest of a content line, after the name: the parameters,
    /// `:`, the value.
    pub fn try_from(v: &[u8]) -> (r: Result<RefreshInterval, ParseError>)
        ensures
            r is Ok <==> RefreshInterval::parses(v@),
            r matches Ok(p) ==> p.describes(v@),
            first_unquoted(v@, COLON) is None ==> r matches Err(ParseError::Parameter { .. }),
    {
        let (head, tail) = split_remainder(v)?;
        let params = match SharedParams::parse(head.as_slice()) {
            Ok(p) => p,
            Err(e) => {
                return Err(ParseError::Parameters(e));
            },
        };
        let value = match DurationValue::try_from(tail.as_slice()) {
            Ok(x) => x,
            Err(e) => {
                return Err(ParseError::Value(e));
            },
        };
        Ok(RefreshInterval { value, params })
    }

    /// The property with no parameters.
    pub fn new(value: DurationValue) -> (r: RefreshInterval)
        ensures
            r.spec_value() == value,
            r.spec_params().iana_bytes() == Seq::<Seq<u8>>::empty(),
            r.spec_params().xname_bytes() == Seq::<Seq<u8>>::empty(),
    {
        RefreshInterval { value, params: SharedParams::new() }
    }

    /// The property's value.
    pub fn value(&self) -> (r: &DurationValue)
        ensures
            *r == self.spec_value(),
    {
        &self.value
    }

    /// The property's parameters.
    pub fn params(&self) -> (r: &SharedParams)
        ensures
            *r == self.spec_params(),
    {
        &self.params
    }
}

impl Ical for RefreshInterval {
    /// The content line: `REFRESH-INTERVAL`, the parameters, `:`, the value.
    open spec fn ical(&self) -> Seq<u8> {
        "REFRESH-INTERVAL".spec_bytes() + self.spec_params().ical() + seq![COLON] + self.spec_value().ical()
    }

    proof fn lemma_ical_valid(&self) {
        self.spec_params().lemma_ical_valid();
        self.spec_value().lemma_ical_valid();
        lemma_line_valid("REFRESH-INTERVAL", self.spec_params().ical(), self.spec_value().ical());
    }

    fn write_to(&self, out: &mut Vec<u8>) {
        append_str(out, "REFRESH-INTERVAL");
        self.params.write_to(out);
        out.push(COLON);
        self.value.write_to(out);
        assert(out@ =~= old(out)@ + self.ical());
    }
}

} // verus!
