//! Property parsing shared by every property type: splitting a content
//! line's remainder into its parameter list and its value, the parameter
//! list into `NAME=VALUE` segments, and keeping the parameters no property
//! models (`iana-param`, `x-param`).

use vstd::prelude::*;
use vstd::string::StringSliceAdditionalSpecFns;
use vstd::utf8::valid_utf8;
use crate::bytes::{
    append, append_str, copy_range, decode_caret, eq_bytes, eq_str, find_unquoted, first_byte,
    first_unquoted, has_x_prefix, caret_decoded, lemma_first_unquoted_bounds, lemma_scan_byte,
    lemma_str_bytes_differ,
    param_pieces, param_segments, split_once, to_upper, upper, vec_views, x_prefixed, COLON,
    EQUALS, SEMICOLON,
};
use crate::params::{Altrep, Language, ParamError};
use crate::values::{string_from_utf8, unescape_text, Ical, Text, ValueError};

pub mod calendar;
pub mod component;

use crate::components::ComponentError;
verus! {

/// An error building or validating a typed property.
#[derive(Debug)]
pub enum PropertyError {
    /// `PRIORITY`'s value was outside its valid range.
    InvalidPriority,
    /// `PERCENT-COMPLETE`'s value was outside its valid range.
    InvalidPercentComplete,
    /// `GEO`'s value couldn't be parsed as a latitude/longitude pair.
    InvalidGeo,
    /// The property isn't legal wherever it was encountered in the grammar.
    UnexpectedProperty,
    /// A singleton property occurred more than once in the same component.
    DuplicateProperty(&'static str),
}

/// The `*(";" param)` parameter list of a content line failed to parse.
#[derive(Debug)]
pub enum ParameterError {
    /// A parameter segment didn't match the `NAME=VALUE` shape expected of
    /// it.
    Malformed {
        /// What the segment is supposed to be
        expected: String,
        /// What we actually received
        received: Option<String>,
    },
    /// One parameter's own value failed to parse.
    Param(ParamError),
    /// An iana/x-name parameter's value failed to parse as `TEXT`.
    Value(ValueError),
}

/// A content line failed to parse into a property, or a token stream into
/// a calendar.
#[derive(Debug)]
pub enum ParseError {
    /// The remainder has no `:` introducing the value.
    Parameter {
        /// What the remainder is supposed to hold
        expected: String,
        /// What we actually received
        received: Option<String>,
    },
    /// The property's value broke a rule of the property itself.
    Property(PropertyError),
    /// A single parameter failed to parse.
    Param(ParamError),
    /// The parameter list failed to parse.
    Parameters(ParameterError),
    /// The property's value failed to parse.
    Value(ValueError),
    /// A `BEGIN` names a component that can't stand where it appears.
    UnknownComponent,
    /// A recognized sub-component (`VALARM`, `STANDARD`, `DAYLIGHT`,
    /// `AVAILABLE`) turned up somewhere it may not be nested.
    UnexpectedComponent(&'static str),
    /// A component's `END` name doesn't match its `BEGIN` name.
    MismatchedEnd,
    /// A line that must be kept as text isn't valid UTF-8.
    Utf,
    /// The tokens ran out.
    UnexpectedEof,
    /// A token other than the one the grammar expects.
    UnexpectedToken {
        /// The line it was found on.
        line: usize,
        /// What was expected.
        msg: &'static str,
        /// The token's lexeme.
        lexeme: String,
    },
    /// The token before the current one was asked for with none read.
    EmptyTokenList,
    /// A component's properties break a rule of the component.
    Component(ComponentError),
}

/// `v` as text, for an error message, when it is UTF-8.
pub(crate) fn lossless_text(v: &[u8]) -> Option<String> {
    string_from_utf8(copy_range(v, 0, v.len()))
}

/// Where a property's value starts: right after the first `:` outside a
/// quoted-string. Everything before it is the parameter list.
pub fn value_start(v: &[u8]) -> (r: Result<usize, ParseError>)
    ensures
        match first_unquoted(v@, COLON) {
            Some(k) => r == Ok::<usize, ParseError>(k as usize),
            None => r matches Err(ParseError::Parameter { .. }),
        },
{
    match find_unquoted(v, COLON) {
        Some(k) => Ok(k),
        None => Err(
            ParseError::Parameter {
                expected: "':' introducing the property value".to_owned(),
                received: lossless_text(v),
            },
        ),
    }
}

// ---------------------------------------------------------------------
// NAME=VALUE segments.

/// Whether a segment has the `=` separating its name from its value.
pub open spec fn has_equals(seg: Seq<u8>) -> bool {
    first_byte(seg, EQUALS) is Some
}

/// The `NAME` half of a `NAME=VALUE` segment.
pub open spec fn seg_name(seg: Seq<u8>) -> Seq<u8> {
    seg.take(first_byte(seg, EQUALS)->0)
}

/// The `VALUE` half of a `NAME=VALUE` segment, caret sequences decoded.
pub open spec fn seg_value(seg: Seq<u8>) -> Seq<u8> {
    caret_decoded(seg.skip(first_byte(seg, EQUALS)->0 + 1))
}

fn missing_equals(segment: &[u8]) -> (r: ParameterError)
    ensures
        r matches ParameterError::Malformed { .. },
{
    ParameterError::Malformed { expected: "NAME=VALUE".to_owned(), received: lossless_text(segment) }
}

/// The `NAME` half of a `NAME=VALUE` parameter segment.
pub fn param_name(segment: &[u8]) -> (r: Result<Vec<u8>, ParameterError>)
    ensures
        r is Ok <==> has_equals(segment@),
        r matches Ok(n) ==> n@ == seg_name(segment@),
        r matches Err(e) ==> e is Malformed,
{
    match split_once(segment, EQUALS) {
        Some((n, _)) => Ok(n),
        None => Err(missing_equals(segment)),
    }
}

/// The `VALUE` half of a `NAME=VALUE` parameter segment, with RFC 6868
/// caret-encoding decoded.
pub fn param_value(segment: &[u8]) -> (r: Result<Vec<u8>, ParameterError>)
    ensures
        r is Ok <==> has_equals(segment@),
        r matches Ok(v) ==> v@ == seg_value(segment@),
        r matches Err(e) ==> e is Malformed,
{
    match split_once(segment, EQUALS) {
        Some((_, v)) => Ok(decode_caret(v.as_slice())),
        None => Err(missing_equals(segment)),
    }
}

// ---------------------------------------------------------------------
// The parameters every property has.

pub open spec fn texts_bytes(ts: Seq<Text>) -> Seq<Seq<u8>> {
    ts.map_values(|t: Text| t.bytes())
}

proof fn lemma_texts_bytes_push(ts: Seq<Text>, t: Text)
    ensures
        texts_bytes(ts.push(t)) == texts_bytes(ts).push(t.bytes()),
{
    assert(texts_bytes(ts.push(t)) =~= texts_bytes(ts).push(t.bytes()));
}

/// The text an unmodeled segment is kept as: the whole `NAME=VALUE`,
/// caret sequences and TEXT escapes decoded.
pub open spec fn kept_text(seg: Seq<u8>) -> Seq<u8> {
    unescape_text(caret_decoded(seg))
}

/// Whether an unmodeled segment can be kept.
pub open spec fn keepable(seg: Seq<u8>) -> bool {
    has_equals(seg) && valid_utf8(kept_text(seg))
}

/// The iana and x-name buckets after keeping every segment of `segs`, or
/// `None` when one of them can't be kept.
pub open spec fn kept(segs: Seq<Seq<u8>>) -> Option<(Seq<Seq<u8>>, Seq<Seq<u8>>)>
    decreases segs.len(),
{
    if segs.len() == 0 {
        Some((seq![], seq![]))
    } else {
        match kept(segs.drop_last()) {
            Some((iana, xname)) => {
                let s = segs.last();
                if !keepable(s) {
                    None
                } else if has_x_prefix(seg_name(s)) {
                    Some((iana, xname.push(kept_text(s))))
                } else {
                    Some((iana.push(kept_text(s)), xname))
                }
            },
            None => None,
        }
    }
}

/// `;` followed by each kept parameter, as written in a content line.
pub open spec fn joined_params(ps: Seq<Seq<u8>>) -> Seq<u8>
    decreases ps.len(),
{
    if ps.len() == 0 {
        seq![]
    } else {
        joined_params(ps.drop_last()) + seq![SEMICOLON] + ps.last()
    }
}

/// The params that every property has: the IANA and non-standard
/// parameters no property models, each kept as its raw `NAME=VALUE` text.
#[derive(Debug)]
pub struct SharedParams {
    iana: Vec<Text>,
    xname: Vec<Text>,
}

impl SharedParams {
    /// The kept `iana-param`s, in order.
    pub closed spec fn iana_bytes(&self) -> Seq<Seq<u8>> {
        texts_bytes(self.iana@)
    }

    /// The kept `x-param`s, in order.
    pub closed spec fn xname_bytes(&self) -> Seq<Seq<u8>> {
        texts_bytes(self.xname@)
    }

    /// How the parameters are written: `;NAME=VALUE` for each, iana ones
    /// first.
    pub open spec fn ical(&self) -> Seq<u8> {
        joined_params(self.iana_bytes() + self.xname_bytes())
    }

    /// No parameters.
    pub fn new() -> (r: SharedParams)
        ensures
            r.iana_bytes() == Seq::<Seq<u8>>::empty(),
            r.xname_bytes() == Seq::<Seq<u8>>::empty(),
    {
        let r = SharedParams { iana: Vec::new(), xname: Vec::new() };
        assert(r.iana_bytes() =~= Seq::<Seq<u8>>::empty());
        assert(r.xname_bytes() =~= Seq::<Seq<u8>>::empty());
        r
    }

    /// The kept `iana-param`s, in order.
    pub fn iana(&self) -> (r: &[Text])
        ensures
            texts_bytes(r@) == self.iana_bytes(),
    {
        self.iana.as_slice()
    }

    /// The kept `x-param`s, in order.
    pub fn xname(&self) -> (r: &[Text])
        ensures
            texts_bytes(r@) == self.xname_bytes(),
    {
        self.xname.as_slice()
    }

    /// Records an unrecognized `NAME=VALUE` parameter segment into the
    /// `iana` or `xname` bucket, based on whether `NAME` has the `X-`
    /// prefix.
    pub fn absorb(&mut self, segment: &[u8]) -> (r: Result<(), ParameterError>)
        ensures
            r is Ok <==> keepable(segment@),
            r is Ok ==> if has_x_prefix(seg_name(segment@)) {
                final(self).iana_bytes() == old(self).iana_bytes() && final(self).xname_bytes()
                    == old(self).xname_bytes().push(kept_text(segment@))
            } else {
                final(self).iana_bytes() == old(self).iana_bytes().push(kept_text(segment@))
                    && final(self).xname_bytes() == old(self).xname_bytes()
            },
            !has_equals(segment@) ==> (r matches Err(e) && e is Malformed),
            r is Err ==> *final(self) == *old(self),
    {
        let name = param_name(segment)?;
        let text = match Text::parse(decode_caret(segment).as_slice()) {
            Ok(t) => t,
            Err(e) => {
                return Err(ParameterError::Value(e));
            },
        };
        if x_prefixed(name.as_slice()) {
            proof {
                lemma_texts_bytes_push(self.xname@, text);
            }
            self.xname.push(text);
        } else {
            proof {
                lemma_texts_bytes_push(self.iana@, text);
            }
            self.iana.push(text);
        }
        Ok(())
    }

    /// Whether the segments `ps` parse: every one can be kept.
    pub open spec fn parses(ps: Seq<Seq<u8>>) -> bool {
        kept(ps) is Some
    }

    /// Whether these parameters are what the segments `ps` parse to.
    pub open spec fn describes(&self, ps: Seq<Seq<u8>>) -> bool {
        kept(ps) == Some((self.iana_bytes(), self.xname_bytes()))
    }

    /// Parses a parameter list keeping every parameter as iana or x-name
    /// text.
    pub fn parse(v: &[u8]) -> (r: Result<SharedParams, ParameterError>)
        ensures
            r is Ok <==> SharedParams::parses(param_pieces(v@)),
            r matches Ok(p) ==> p.describes(param_pieces(v@)),
            match kept(param_pieces(v@)) {
                Some((iana, xname)) => r matches Ok(p) && p.iana_bytes() == iana
                    && p.xname_bytes() == xname,
                None => r is Err,
            },
    {
        let segs = param_segments(v);
        let ghost pieces = vec_views(segs@);
        let mut params = SharedParams::new();
        let mut i: usize = 0;
        assert(pieces.take(0) =~= Seq::<Seq<u8>>::empty());
        while i < segs.len()
            invariant
                i <= segs.len(),
                pieces == vec_views(segs@),
                pieces == param_pieces(v@),
                kept(pieces.take(i as int)) == Some((params.iana_bytes(), params.xname_bytes())),
            decreases segs.len() - i,
        {
            assert(pieces.take(i + 1).drop_last() =~= pieces.take(i as int));
            assert(pieces.take(i + 1).last() == segs@[i as int]@);
            match params.absorb(segs[i].as_slice()) {
                Ok(()) => {},
                Err(e) => {
                    proof {
                        lemma_kept_prefix_fails(pieces, i + 1);
                    }
                    return Err(e);
                },
            }
            i += 1;
        }
        assert(pieces.take(segs.len() as int) =~= pieces);
        Ok(params)
    }

    /// Appends `;NAME=VALUE` for each kept parameter, iana ones first.
    pub fn write_to(&self, out: &mut Vec<u8>)
        ensures
            final(out)@ == old(out)@ + self.ical(),
    {
        let ghost all = self.iana_bytes() + self.xname_bytes();
        let mut i: usize = 0;
        assert(all.take(0) =~= Seq::<Seq<u8>>::empty());
        while i < self.iana.len()
            invariant
                i <= self.iana.len(),
                all == self.iana_bytes() + self.xname_bytes(),
                out@ == old(out)@ + joined_params(all.take(i as int)),
            decreases self.iana.len() - i,
        {
            assert(all.take(i + 1).drop_last() =~= all.take(i as int));
            assert(all.take(i + 1).last() == self.iana@[i as int].bytes());
            out.push(SEMICOLON);
            self.iana[i].write_raw(out);
            assert(old(out)@ + joined_params(all.take(i + 1)) =~= old(out)@ + joined_params(
                all.take(i as int),
            ) + seq![SEMICOLON] + self.iana@[i as int].bytes());
            i += 1;
        }
        let n = self.iana.len();
        let mut j: usize = 0;
        while j < self.xname.len()
            invariant
                j <= self.xname.len(),
                n == self.iana.len(),
                all == self.iana_bytes() + self.xname_bytes(),
                out@ == old(out)@ + joined_params(all.take(n + j)),
            decreases self.xname.len() - j,
        {
            assert(all.take(n + j + 1).drop_last() =~= all.take(n + j));
            assert(all.take(n + j + 1).last() == self.xname@[j as int].bytes());
            out.push(SEMICOLON);
            self.xname[j].write_raw(out);
            assert(old(out)@ + joined_params(all.take(n + j + 1)) =~= old(out)@ + joined_params(
                all.take(n + j),
            ) + seq![SEMICOLON] + self.xname@[j as int].bytes());
            j += 1;
        }
        assert(all.take(n + self.xname.len()) =~= all);
    }
}

proof fn lemma_kept_prefix_fails(pieces: Seq<Seq<u8>>, k: int)
    requires
        0 <= k <= pieces.len(),
        kept(pieces.take(k)) is None,
    ensures
        kept(pieces) is None,
    decreases pieces.len() - k,
{
    if k < pieces.len() {
        assert(pieces.take(k + 1).drop_last() =~= pieces.take(k));
        lemma_kept_prefix_fails(pieces, k + 1);
    } else {
        assert(pieces.take(k) =~= pieces);
    }
}


// ---------------------------------------------------------------------
// Parameter lists with parameters a property models.

/// Whether `seg` is a `NAME=VALUE` segment whose name is `key`, in any
/// case.
pub open spec fn named(seg: Seq<u8>, key: Seq<u8>) -> bool {
    has_equals(seg) && upper(seg_name(seg)) == key
}

/// The value of the last segment of `ps` named `key`: a later occurrence
/// of a parameter replaces an earlier one.
pub open spec fn last_value(ps: Seq<Seq<u8>>, key: Seq<u8>) -> Option<Seq<u8>>
    decreases ps.len(),
{
    if ps.len() == 0 {
        None
    } else if named(ps.last(), key) {
        Some(seg_value(ps.last()))
    } else {
        last_value(ps.drop_last(), key)
    }
}

/// Whether `seg` is named by one of `keys`.
pub open spec fn modeled(seg: Seq<u8>, keys: Seq<Seq<u8>>) -> bool {
    exists|i: int| 0 <= i < keys.len() && named(seg, #[trigger] keys[i])
}

/// The segments of `ps` that none of `keys` names, in order.
pub open spec fn unmodeled(ps: Seq<Seq<u8>>, keys: Seq<Seq<u8>>) -> Seq<Seq<u8>>
    decreases ps.len(),
{
    if ps.len() == 0 {
        seq![]
    } else if modeled(ps.last(), keys) {
        unmodeled(ps.drop_last(), keys)
    } else {
        unmodeled(ps.drop_last(), keys).push(ps.last())
    }
}

/// Whether every segment named `key` has a value that `ok` accepts.
pub open spec fn all_values_ok(ps: Seq<Seq<u8>>, key: Seq<u8>, ok: spec_fn(Seq<u8>) -> bool) -> bool {
    forall|i: int| 0 <= i < ps.len() && named(#[trigger] ps[i], key) ==> ok(seg_value(ps[i]))
}

/// Once a prefix can't be kept, no longer prefix can.
pub proof fn lemma_kept_unmodeled_fails(ps: Seq<Seq<u8>>, keys: Seq<Seq<u8>>, i: int, j: int)
    requires
        0 <= i <= j <= ps.len(),
        kept(unmodeled(ps.take(i), keys)) is None,
    ensures
        kept(unmodeled(ps.take(j), keys)) is None,
    decreases j - i,
{
    if i < j {
        lemma_kept_unmodeled_fails(ps, keys, i, j - 1);
        assert(ps.take(j).drop_last() =~= ps.take(j - 1));
        let u = unmodeled(ps.take(j - 1), keys);
        if !modeled(ps.take(j).last(), keys) {
            assert(u.push(ps.take(j).last()).drop_last() =~= u);
        }
    }
}

/// The segment after a prefix: how the specs above grow by one.
pub proof fn lemma_step(ps: Seq<Seq<u8>>, keys: Seq<Seq<u8>>, i: int)
    requires
        0 <= i < ps.len(),
    ensures
        ps.take(i + 1).drop_last() == ps.take(i),
        ps.take(i + 1).last() == ps[i],
        unmodeled(ps.take(i + 1), keys) == if modeled(ps[i], keys) {
            unmodeled(ps.take(i), keys)
        } else {
            unmodeled(ps.take(i), keys).push(ps[i])
        },
{
    assert(ps.take(i + 1).drop_last() =~= ps.take(i));
}

/// The iana and x-name buckets after keeping one more segment, or `None`
/// when it can't be kept.
pub open spec fn kept_step(iana: Seq<Seq<u8>>, xname: Seq<Seq<u8>>, s: Seq<u8>) -> Option<
    (Seq<Seq<u8>>, Seq<Seq<u8>>),
> {
    if !keepable(s) {
        None
    } else if has_x_prefix(seg_name(s)) {
        Some((iana, xname.push(kept_text(s))))
    } else {
        Some((iana.push(kept_text(s)), xname))
    }
}

/// Keeping one more segment.
pub proof fn lemma_kept_push(segs: Seq<Seq<u8>>, s: Seq<u8>)
    ensures
        segs.push(s).drop_last() == segs,
        segs.push(s).last() == s,
{
    assert(segs.push(s).drop_last() =~= segs);
}

impl SharedParams {
    /// The written parameters are valid UTF-8.
    pub proof fn lemma_ical_valid(&self)
        ensures
            valid_utf8(self.ical()),
    {
        let all = self.iana_bytes() + self.xname_bytes();
        assert forall|i: int| 0 <= i < all.len() implies valid_utf8(#[trigger] all[i]) by {
            if i < self.iana_bytes().len() {
                vstd::utf8::encode_utf8_valid_utf8(self.iana@[i]@);
            } else {
                vstd::utf8::encode_utf8_valid_utf8(self.xname@[i - self.iana_bytes().len()]@);
            }
        }
        lemma_joined_params_valid(all);
    }
}

proof fn lemma_joined_params_valid(ps: Seq<Seq<u8>>)
    requires
        forall|i: int| 0 <= i < ps.len() ==> valid_utf8(#[trigger] ps[i]),
    ensures
        valid_utf8(joined_params(ps)),
    decreases ps.len(),
{
    if ps.len() > 0 {
        lemma_joined_params_valid(ps.drop_last());
        crate::bytes::lemma_ascii_valid(SEMICOLON);
        vstd::utf8::valid_utf8_concat(joined_params(ps.drop_last()), seq![SEMICOLON]);
        assert(valid_utf8(ps.last()));
        vstd::utf8::valid_utf8_concat(joined_params(ps.drop_last()) + seq![SEMICOLON], ps.last());
    }
}

/// What every set of property parameters keeps besides the parameters it
/// models: the IANA and the non-standard (`X-`) ones.
pub trait Params {
    /// The kept `iana-param`s, in order.
    spec fn iana_kept(&self) -> Seq<Seq<u8>>;

    /// The kept `x-param`s, in order.
    spec fn xname_kept(&self) -> Seq<Seq<u8>>;

    /// The kept `iana-param`s, in order.
    fn get_iana(&self) -> (r: &[Text])
        ensures
            texts_bytes(r@) == self.iana_kept(),
    ;

    /// The kept `x-param`s, in order.
    fn get_xname(&self) -> (r: &[Text])
        ensures
            texts_bytes(r@) == self.xname_kept(),
    ;
}

impl Params for SharedParams {
    open spec fn iana_kept(&self) -> Seq<Seq<u8>> {
        self.iana_bytes()
    }

    open spec fn xname_kept(&self) -> Seq<Seq<u8>> {
        self.xname_bytes()
    }

    fn get_iana(&self) -> (r: &[Text]) {
        self.iana()
    }

    fn get_xname(&self) -> (r: &[Text]) {
        self.xname()
    }
}

/// A non-standard (`X-`) property, kept whole: its name, its parameters
/// and its TEXT value.
#[derive(Debug)]
pub struct Xprop {
    name: Text,
    value: Text,
    params: SharedParams,
}

impl Xprop {
    /// The property's name.
    pub closed spec fn spec_name(&self) -> Text {
        self.name
    }

    /// The property's value.
    pub closed spec fn spec_value(&self) -> Text {
        self.value
    }

    /// The property's parameters.
    pub closed spec fn spec_params(&self) -> SharedParams {
        self.params
    }

    /// Parses a property named `name` from the rest of its content line:
    /// the parameters, `:`, the TEXT value.
    pub fn parse(name: &[u8], remainder: &[u8]) -> (r: Result<Xprop, ParseError>)
        ensures
            match first_unquoted(remainder@, COLON) {
                None => r matches Err(ParseError::Parameter { .. }),
                Some(k) => match kept(param_pieces(remainder@.take(k))) {
                    None => r matches Err(ParseError::Parameters(_)),
                    Some((iana, xname)) => {
                        &&& (r is Ok <==> valid_utf8(unescape_text(remainder@.skip(k + 1)))
                            && valid_utf8(unescape_text(name@)))
                        &&& r matches Ok(x) ==> {
                            &&& x.spec_params().iana_bytes() == iana
                            &&& x.spec_params().xname_bytes() == xname
                            &&& x.spec_value().bytes() == unescape_text(remainder@.skip(k + 1))
                            &&& x.spec_name().bytes() == unescape_text(name@)
                        }
                    },
                },
            },
    {
        let colon = value_start(remainder)?;
        proof {
            lemma_first_unquoted_bounds(remainder@, COLON);
        }
        let head = copy_range(remainder, 0, colon);
        let tail = copy_range(remainder, colon + 1, remainder.len());
        assert(head@ =~= remainder@.take(colon as int));
        assert(tail@ =~= remainder@.skip(colon + 1));
        let params = match SharedParams::parse(head.as_slice()) {
            Ok(p) => p,
            Err(e) => {
                return Err(ParseError::Parameters(e));
            },
        };
        let value = match Text::parse(tail.as_slice()) {
            Ok(t) => t,
            Err(e) => {
                return Err(ParseError::Value(e));
            },
        };
        let name = match Text::parse(name) {
            Ok(t) => t,
            Err(e) => {
                return Err(ParseError::Value(e));
            },
        };
        Ok(Xprop { name, value, params })
    }

    /// A property with no parameters.
    pub fn build(name: Text, value: Text) -> (r: Xprop)
        ensures
            r.spec_name()@ == name@,
            r.spec_value()@ == value@,
            r.spec_params().iana_bytes() == Seq::<Seq<u8>>::empty(),
            r.spec_params().xname_bytes() == Seq::<Seq<u8>>::empty(),
    {
        Xprop { name, value, params: SharedParams::new() }
    }

    /// The property's name.
    pub fn name(&self) -> (r: &Text)
        ensures
            *r == self.spec_name(),
    {
        &self.name
    }

    /// The property's value.
    pub fn value(&self) -> (r: &Text)
        ensures
            *r == self.spec_value(),
    {
        &self.value
    }

    /// The property's parameters.
    pub fn params(&self) -> (r: &SharedParams)
        ensures
            *r == self.spec_params(),
    {
        &self.params
    }
}

impl Ical for Xprop {
    /// The content line: the name, the parameters, `:`, the value escaped.
    open spec fn ical(&self) -> Seq<u8> {
        self.spec_name().bytes() + self.spec_params().ical() + seq![COLON]
            + self.spec_value().escaped()
    }

    proof fn lemma_ical_valid(&self) {
        vstd::utf8::encode_utf8_valid_utf8(self.spec_name()@);
        vstd::utf8::encode_utf8_valid_utf8(self.spec_value()@);
        self.spec_params().lemma_ical_valid();
        crate::values::lemma_escape_valid(self.spec_value().bytes());
        crate::bytes::lemma_ascii_valid(COLON);
        let a = self.spec_name().bytes();
        let b = self.spec_params().ical();
        vstd::utf8::valid_utf8_concat(a, b);
        vstd::utf8::valid_utf8_concat(a + b, seq![COLON]);
        vstd::utf8::valid_utf8_concat(a + b + seq![COLON], self.spec_value().escaped());
    }

    fn write_to(&self, out: &mut Vec<u8>) {
        self.name.write_raw(out);
        self.params.write_to(out);
        out.push(COLON);
        self.value.write_escaped(out);
        assert(out@ =~= old(out)@ + self.ical());
    }
}

/// An IANA-registered property this crate doesn't model, kept whole: its
/// name, its parameters and its TEXT value.
#[derive(Debug)]
pub struct Iana {
    name: Text,
    value: Text,
    params: SharedParams,
}

impl Iana {
    /// The property's name.
    pub closed spec fn spec_name(&self) -> Text {
        self.name
    }

    /// The property's value.
    pub closed spec fn spec_value(&self) -> Text {
        self.value
    }

    /// The property's parameters.
    pub closed spec fn spec_params(&self) -> SharedParams {
        self.params
    }

    /// Parses a property named `name` from the rest of its content line:
    /// the parameters, `:`, the TEXT value.
    pub fn parse(name: &[u8], remainder: &[u8]) -> (r: Result<Iana, ParseError>)
        ensures
            match first_unquoted(remainder@, COLON) {
                None => r matches Err(ParseError::Parameter { .. }),
                Some(k) => match kept(param_pieces(remainder@.take(k))) {
                    None => r matches Err(ParseError::Parameters(_)),
                    Some((iana, xname)) => {
                        &&& (r is Ok <==> valid_utf8(unescape_text(remainder@.skip(k + 1)))
                            && valid_utf8(unescape_text(name@)))
                        &&& r matches Ok(x) ==> {
                            &&& x.spec_params().iana_bytes() == iana
                            &&& x.spec_params().xname_bytes() == xname
                            &&& x.spec_value().bytes() == unescape_text(remainder@.skip(k + 1))
                            &&& x.spec_name().bytes() == unescape_text(name@)
                        }
                    },
                },
            },
    {
        let colon = value_start(remainder)?;
        proof {
            lemma_first_unquoted_bounds(remainder@, COLON);
        }
        let head = copy_range(remainder, 0, colon);
        let tail = copy_range(remainder, colon + 1, remainder.len());
        assert(head@ =~= remainder@.take(colon as int));
        assert(tail@ =~= remainder@.skip(colon + 1));
        let params = match SharedParams::parse(head.as_slice()) {
            Ok(p) => p,
            Err(e) => {
                return Err(ParseError::Parameters(e));
            },
        };
        let value = match Text::parse(tail.as_slice()) {
            Ok(t) => t,
            Err(e) => {
                return Err(ParseError::Value(e));
            },
        };
        let name = match Text::parse(name) {
            Ok(t) => t,
            Err(e) => {
                return Err(ParseError::Value(e));
            },
        };
        Ok(Iana { name, value, params })
    }

    /// A property with no parameters.
    pub fn build(name: Text, value: Text) -> (r: Iana)
        ensures
            r.spec_name()@ == name@,
            r.spec_value()@ == value@,
            r.spec_params().iana_bytes() == Seq::<Seq<u8>>::empty(),
            r.spec_params().xname_bytes() == Seq::<Seq<u8>>::empty(),
    {
        Iana { name, value, params: SharedParams::new() }
    }

    /// The property's name.
    pub fn name(&self) -> (r: &Text)
        ensures
            *r == self.spec_name(),
    {
        &self.name
    }

    /// The property's value.
    pub fn value(&self) -> (r: &Text)
        ensures
            *r == self.spec_value(),
    {
        &self.value
    }

    /// The property's parameters.
    pub fn params(&self) -> (r: &SharedParams)
        ensures
            *r == self.spec_params(),
    {
        &self.params
    }
}

impl Ical for Iana {
    /// The content line: the name, the parameters, `:`, the value escaped.
    open spec fn ical(&self) -> Seq<u8> {
        self.spec_name().bytes() + self.spec_params().ical() + seq![COLON]
            + self.spec_value().escaped()
    }

    proof fn lemma_ical_valid(&self) {
        vstd::utf8::encode_utf8_valid_utf8(self.spec_name()@);
        vstd::utf8::encode_utf8_valid_utf8(self.spec_value()@);
        self.spec_params().lemma_ical_valid();
        crate::values::lemma_escape_valid(self.spec_value().bytes());
        crate::bytes::lemma_ascii_valid(COLON);
        let a = self.spec_name().bytes();
        let b = self.spec_params().ical();
        vstd::utf8::valid_utf8_concat(a, b);
        vstd::utf8::valid_utf8_concat(a + b, seq![COLON]);
        vstd::utf8::valid_utf8_concat(a + b + seq![COLON], self.spec_value().escaped());
    }

    fn write_to(&self, out: &mut Vec<u8>) {
        self.name.write_raw(out);
        self.params.write_to(out);
        out.push(COLON);
        self.value.write_escaped(out);
        assert(out@ =~= old(out)@ + self.ical());
    }
}

/// The parameters of a TEXT property that may point to an alternate
/// representation of its value and name its language (`ALTREP`,
/// `LANGUAGE`), besides the unmodeled ones.
#[derive(Debug)]
pub struct AltrepLanguageParams {
    shared: SharedParams,
    altrep: Option<Altrep>,
    language: Option<Language>,
}

impl AltrepLanguageParams {
    /// The names of the parameters modeled here.
    pub open spec fn keys() -> Seq<Seq<u8>> {
        seq!["ALTREP".spec_bytes(), "LANGUAGE".spec_bytes()]
    }

    /// Whether the segments `ps` parse: every unmodeled one can be kept and
    /// every modeled one holds a value of its parameter.
    pub open spec fn parses(ps: Seq<Seq<u8>>) -> bool {
        &&& kept(unmodeled(ps, AltrepLanguageParams::keys())) is Some
        &&& forall|i: int|
            0 <= i < ps.len() && named(#[trigger] ps[i], "ALTREP".spec_bytes()) ==> Altrep::parses(
                seg_value(ps[i]),
            )
        &&& forall|i: int|
            0 <= i < ps.len() && named(#[trigger] ps[i], "LANGUAGE".spec_bytes()) ==> Language::parses(
                seg_value(ps[i]),
            )
    }

    /// The unmodeled parameters.
    pub closed spec fn spec_shared(&self) -> SharedParams {
        self.shared
    }

    /// The `ALTREP` parameter.
    pub closed spec fn spec_altrep(&self) -> Option<Altrep> {
        self.altrep
    }

    /// The `LANGUAGE` parameter.
    pub closed spec fn spec_language(&self) -> Option<Language> {
        self.language
    }

    /// Whether these parameters are what the segments `ps` parse to: each
    /// modeled parameter from its last occurrence, the rest kept in order.
    pub open spec fn describes(&self, ps: Seq<Seq<u8>>) -> bool {
        &&& kept(unmodeled(ps, AltrepLanguageParams::keys())) == Some(
            (self.spec_shared().iana_bytes(), self.spec_shared().xname_bytes()),
        )
        &&& match last_value(ps, "ALTREP".spec_bytes()) {
            Some(v) => self.spec_altrep() matches Some(x) && Altrep::accepts(v, x),
            None => self.spec_altrep() is None,
        }
        &&& match last_value(ps, "LANGUAGE".spec_bytes()) {
            Some(v) => self.spec_language() matches Some(x) && Language::accepts(v, x),
            None => self.spec_language() is None,
        }
    }

    /// No parameters.
    pub fn new() -> (r: AltrepLanguageParams)
        ensures
            r.spec_shared().iana_bytes() == Seq::<Seq<u8>>::empty(),
            r.spec_shared().xname_bytes() == Seq::<Seq<u8>>::empty(),
            r.spec_altrep() is None,
            r.spec_language() is None,
    {
        AltrepLanguageParams { shared: SharedParams::new(), altrep: None, language: None }
    }

    /// The names modeled here differ from one another.
    proof fn lemma_keys_distinct()
        ensures
            "ALTREP".spec_bytes() != "LANGUAGE".spec_bytes(),
    {
        reveal_strlit("ALTREP");
        reveal_strlit("LANGUAGE");
        lemma_str_bytes_differ("ALTREP", "LANGUAGE", 0);
    }

    /// Whether one segment can be taken: a modeled one must hold a value of
    /// its parameter, any other must be keepable.
    pub open spec fn segment_ok(seg: Seq<u8>) -> bool {
        if named(seg, "ALTREP".spec_bytes()) {
            Altrep::parses(seg_value(seg))
        } else if named(seg, "LANGUAGE".spec_bytes()) {
            Language::parses(seg_value(seg))
        } else {
            keepable(seg)
        }
    }

    /// How taking the segment `seg` changes the parameters `p` into `q`.
    pub open spec fn segment_step(p: AltrepLanguageParams, q: AltrepLanguageParams, seg: Seq<u8>) -> bool {
        &&& if named(seg, "ALTREP".spec_bytes()) {
            q.spec_altrep() matches Some(x) && Altrep::accepts(seg_value(seg), x)
        } else {
            q.spec_altrep() == p.spec_altrep()
        }
        &&& if named(seg, "LANGUAGE".spec_bytes()) {
            q.spec_language() matches Some(x) && Language::accepts(seg_value(seg), x)
        } else {
            q.spec_language() == p.spec_language()
        }
        &&& if modeled(seg, AltrepLanguageParams::keys()) {
            q.spec_shared() == p.spec_shared()
        } else {
            kept_step(p.spec_shared().iana_bytes(), p.spec_shared().xname_bytes(), seg) == Some(
                (q.spec_shared().iana_bytes(), q.spec_shared().xname_bytes()),
            )
        }
    }

    /// Takes one `NAME=VALUE` segment.
    fn take_segment(&mut self, seg: &[u8]) -> (r: Result<(), ParameterError>)
        ensures
            r is Ok <==> AltrepLanguageParams::segment_ok(seg@),
            r is Ok ==> AltrepLanguageParams::segment_step(*old(self), *final(self), seg@),
    {
        proof {
            AltrepLanguageParams::lemma_keys_distinct();
            assert(AltrepLanguageParams::keys()[0] == "ALTREP".spec_bytes());
            assert(AltrepLanguageParams::keys()[1] == "LANGUAGE".spec_bytes());
        }
        let name = match param_name(seg) {
            Ok(n) => n,
            Err(e) => {
                return Err(e);
            },
        };
        let key = to_upper(name.as_slice());
        if eq_str(key.as_slice(), "ALTREP") {
            let value = param_value(seg)?;
            match Altrep::try_from(value.as_slice()) {
                Ok(x) => {
                    self.altrep = Some(x);
                    Ok(())
                },
                Err(e) => Err(ParameterError::Param(e)),
            }
        } else if eq_str(key.as_slice(), "LANGUAGE") {
            let value = param_value(seg)?;
            match Language::try_from(value.as_slice()) {
                Ok(x) => {
                    self.language = Some(x);
                    Ok(())
                },
                Err(e) => Err(ParameterError::Param(e)),
            }
        } else {
            assert(!modeled(seg@, AltrepLanguageParams::keys()));
            self.shared.absorb(seg)
        }
    }

    /// Parses a parameter list.
    pub fn parse(v: &[u8]) -> (r: Result<AltrepLanguageParams, ParameterError>)
        ensures
            r is Ok <==> AltrepLanguageParams::parses(param_pieces(v@)),
            r matches Ok(p) ==> p.describes(param_pieces(v@)),
    {
        let segs = param_segments(v);
        let ghost ps = vec_views(segs@);
        let ghost keys = AltrepLanguageParams::keys();
        let mut p = AltrepLanguageParams::new();
        let mut i: usize = 0;
        assert(ps.take(0) =~= Seq::<Seq<u8>>::empty());
        while i < segs.len()
            invariant
                i <= segs.len(),
                ps == vec_views(segs@),
                ps == param_pieces(v@),
                keys == AltrepLanguageParams::keys(),
                kept(unmodeled(ps.take(i as int), keys)) == Some(
                    (p.spec_shared().iana_bytes(), p.spec_shared().xname_bytes()),
                ),
                forall|j: int|
                    0 <= j < i && named(#[trigger] ps[j], "ALTREP".spec_bytes()) ==> Altrep::parses(
                        seg_value(ps[j]),
                    ),
                match last_value(ps.take(i as int), "ALTREP".spec_bytes()) {
                    Some(w) => p.spec_altrep() matches Some(x) && Altrep::accepts(w, x),
                    None => p.spec_altrep() is None,
                },
                forall|j: int|
                    0 <= j < i && named(#[trigger] ps[j], "LANGUAGE".spec_bytes()) ==> Language::parses(
                        seg_value(ps[j]),
                    ),
                match last_value(ps.take(i as int), "LANGUAGE".spec_bytes()) {
                    Some(w) => p.spec_language() matches Some(x) && Language::accepts(w, x),
                    None => p.spec_language() is None,
                },
            decreases segs.len() - i,
        {
            let seg = segs[i].as_slice();
            proof {
                lemma_step(ps, keys, i as int);
                assert(seg@ == ps[i as int]);
                AltrepLanguageParams::lemma_keys_distinct();
                assert(keys[0] == "ALTREP".spec_bytes());
                assert(keys[1] == "LANGUAGE".spec_bytes());
                lemma_kept_push(unmodeled(ps.take(i as int), keys), ps[i as int]);
            }
            match p.take_segment(seg) {
                Ok(()) => {},
                Err(e) => {
                    proof {
                        if !modeled(ps[i as int], keys) {
                            lemma_kept_unmodeled_fails(ps, keys, i + 1, ps.len() as int);
                        }
                        assert(ps.take(ps.len() as int) =~= ps);
                    }
                    return Err(e);
                },
            }
            i += 1;
        }
        assert(ps.take(segs.len() as int) =~= ps);
        Ok(p)
    }

    /// The unmodeled parameters.
    pub fn shared(&self) -> (r: &SharedParams)
        ensures
            *r == self.spec_shared(),
    {
        &self.shared
    }

    /// The `ALTREP` parameter.
    pub fn altrep(&self) -> (r: Option<&Altrep>)
        ensures
            match r {
                Some(x) => self.spec_altrep() == Some(*x),
                None => self.spec_altrep() is None,
            },
    {
        self.altrep.as_ref()
    }

    /// Sets the `ALTREP` parameter.
    pub fn set_altrep(&mut self, x: Altrep)
        ensures
            final(self).spec_altrep() == Some(x),
            final(self).spec_shared() == old(self).spec_shared(),
            final(self).spec_language() == old(self).spec_language(),
    {
        self.altrep = Some(x);
    }

    /// The `LANGUAGE` parameter.
    pub fn language(&self) -> (r: Option<&Language>)
        ensures
            match r {
                Some(x) => self.spec_language() == Some(*x),
                None => self.spec_language() is None,
            },
    {
        self.language.as_ref()
    }

    /// Sets the `LANGUAGE` parameter.
    pub fn set_language(&mut self, x: Language)
        ensures
            final(self).spec_language() == Some(x),
            final(self).spec_shared() == old(self).spec_shared(),
            final(self).spec_altrep() == old(self).spec_altrep(),
    {
        self.language = Some(x);
    }

    /// How the parameters are written: each modeled one that is set, then
    /// the kept ones.
    pub open spec fn ical(&self) -> Seq<u8> {
        self.altrep_text() + self.language_text() + self.spec_shared().ical()
    }

    /// The written parameters are valid UTF-8.
    pub proof fn lemma_ical_valid(&self)
        ensures
            valid_utf8(self.ical()),
    {
        self.spec_shared().lemma_ical_valid();
        let mut acc: Seq<u8> = seq![];
        assert(valid_utf8(acc));
        let part = self.altrep_text();
        if let Some(x) = self.spec_altrep() {
            x.lemma_ical_valid();
            vstd::utf8::encode_utf8_valid_utf8(";ALTREP="@);
            vstd::utf8::valid_utf8_concat(";ALTREP=".spec_bytes(), x.ical());
        }
        vstd::utf8::valid_utf8_concat(acc, part);
        acc = acc + part;
        let part = self.language_text();
        if let Some(x) = self.spec_language() {
            x.lemma_ical_valid();
            vstd::utf8::encode_utf8_valid_utf8(";LANGUAGE="@);
            vstd::utf8::valid_utf8_concat(";LANGUAGE=".spec_bytes(), x.ical());
        }
        vstd::utf8::valid_utf8_concat(acc, part);
        acc = acc + part;
        vstd::utf8::valid_utf8_concat(acc, self.spec_shared().ical());
        assert(acc + self.spec_shared().ical() =~= self.ical());
    }

    /// The `ALTREP` parameter as written, when it is set.
    pub open spec fn altrep_text(&self) -> Seq<u8> {
        match self.spec_altrep() {
            Some(x) => ";ALTREP=".spec_bytes() + x.ical(),
            None => seq![],
        }
    }

    fn write_altrep(&self, out: &mut Vec<u8>)
        ensures
            final(out)@ == old(out)@ + self.altrep_text(),
    {
        if let Some(x) = &self.altrep {
            append_str(out, ";ALTREP=");
            x.write_to(out);
        }
    }

    /// The `LANGUAGE` parameter as written, when it is set.
    pub open spec fn language_text(&self) -> Seq<u8> {
        match self.spec_language() {
            Some(x) => ";LANGUAGE=".spec_bytes() + x.ical(),
            None => seq![],
        }
    }

    fn write_language(&self, out: &mut Vec<u8>)
        ensures
            final(out)@ == old(out)@ + self.language_text(),
    {
        if let Some(x) = &self.language {
            append_str(out, ";LANGUAGE=");
            x.write_to(out);
        }
    }

    /// Appends the parameters as written.
    pub fn write_to(&self, out: &mut Vec<u8>)
        ensures
            final(out)@ == old(out)@ + self.ical(),
    {
        self.write_altrep(out);
        self.write_language(out);
        self.shared.write_to(out);
        assert(out@ =~= old(out)@ + self.ical());
    }
}
/// Splits the rest of a content line at its first `:` outside a
/// quoted-string: the parameter list and the value.
pub fn split_remainder(v: &[u8]) -> (r: Result<(Vec<u8>, Vec<u8>), ParseError>)
    ensures
        match first_unquoted(v@, COLON) {
            Some(k) => r matches Ok((h, t)) && h@ == v@.take(k) && t@ == v@.skip(k + 1),
            None => r matches Err(ParseError::Parameter { .. }),
        },
{
    let colon = value_start(v)?;
    proof {
        lemma_first_unquoted_bounds(v@, COLON);
    }
    let head = copy_range(v, 0, colon);
    let tail = copy_range(v, colon + 1, v.len());
    assert(head@ =~= v@.take(colon as int));
    assert(tail@ =~= v@.skip(colon + 1));
    Ok((head, tail))
}

/// A content line is valid UTF-8 when its parameters and value are.
pub proof fn lemma_line_valid(name: &str, params: Seq<u8>, value: Seq<u8>)
    requires
        valid_utf8(params),
        valid_utf8(value),
    ensures
        valid_utf8(name.spec_bytes() + params + seq![COLON] + value),
{
    vstd::utf8::encode_utf8_valid_utf8(name@);
    crate::bytes::lemma_ascii_valid(COLON);
    vstd::utf8::valid_utf8_concat(name.spec_bytes(), params);
    vstd::utf8::valid_utf8_concat(name.spec_bytes() + params, seq![COLON]);
    vstd::utf8::valid_utf8_concat(name.spec_bytes() + params + seq![COLON], value);
}

} // verus!
