//! Property value types (RFC 5545 §3.3): TEXT with its BACKSLASH
//! escaping, and the other value types the properties carry.

use vstd::prelude::*;
use vstd::utf8::*;
use vstd::string::StringSliceAdditionalSpecFns;
use crate::bytes::{
    append, copy_range, eq_bytes, find_byte, first_byte, is_alnum, is_alpha, is_ascii_alnum,
    lemma_scan_byte, to_upper, upper, BACKSLASH, COLON, COMMA, DIGIT_NINE, DIGIT_ZERO, DQUOTE,
    DOT, HYPHEN, LF, LOWER_A, LOWER_N, LOWER_Z, PLUS, SEMICOLON, SLASH, SPACE, UPPER_A,
    UPPER_N, UPPER_Z,
};

pub mod datetime;
pub mod duration;
pub mod offset;
pub mod recur;
pub mod recur_text;
pub mod decimal;

verus! {

/// Turns bytes into a `String` when they are valid UTF-8.
///
/// Calls `String::from_utf8`. Its documentation says it succeeds exactly
/// when the bytes are valid UTF-8, and that the `String` then holds those
/// very bytes; that is what the contract claims.
#[verifier::external_body]
pub(crate) fn string_from_utf8(v: Vec<u8>) -> (r: Option<String>)
    ensures
        r is Some <==> valid_utf8(v@),
        r matches Some(s) ==> encode_utf8(s@) == v@,
{
    String::from_utf8(v).ok()
}

/// The error for a value that isn't what `expected` names.
pub(crate) fn malformed_value(expected: &str, v: &[u8]) -> (r: ValueError)
    ensures
        r is Malformed,
{
    ValueError::Malformed {
        expected: expected.to_owned(),
        received: string_from_utf8(crate::bytes::copy_range(v, 0, v.len())),
    }
}

/// Turns bytes that are valid UTF-8 into a `String`.
pub fn bytes_to_string(v: Vec<u8>) -> (r: String)
    requires
        valid_utf8(v@),
    ensures
        encode_utf8(r@) == v@,
{
    match string_from_utf8(v) {
        Some(s) => s,
        None => String::new(),
    }
}

/// A value with a written form in a content line.
pub trait Ical {
    /// The bytes a content line holds for the value.
    spec fn ical(&self) -> Seq<u8>;

    /// The written form is valid UTF-8.
    proof fn lemma_ical_valid(&self)
        ensures
            valid_utf8(self.ical()),
    ;

    /// Appends the written form.
    fn write_to(&self, out: &mut Vec<u8>)
        ensures
            final(out)@ == old(out)@ + self.ical(),
    ;

    /// The written form as a `String`.
    fn to_string(&self) -> (r: String)
        ensures
            encode_utf8(r@) == self.ical(),
    {
        let mut out: Vec<u8> = Vec::new();
        self.write_to(&mut out);
        proof {
            self.lemma_ical_valid();
            assert(out@ =~= self.ical());
        }
        bytes_to_string(out)
    }
}

/// Why a property value failed to parse.
#[derive(Debug)]
pub enum ValueError {
    /// The value's bytes aren't UTF-8.
    Utf8,
    /// The value didn't match its expected grammar.
    Malformed {
        /// What the value is supposed to be
        expected: String,
        /// What we actually received
        received: Option<String>,
    },
}

// ---------------------------------------------------------------------
// TEXT escaping (RFC 5545 §3.3.11).

/// Whether `\` followed by `d` is one of TEXT's escape sequences.
pub open spec fn is_text_escape(d: u8) -> bool {
    d == BACKSLASH || d == SEMICOLON || d == COMMA || d == LOWER_N || d == UPPER_N
}

/// The byte that `\` followed by `d` stands for.
pub open spec fn text_escape_meaning(d: u8) -> u8 {
    if d == LOWER_N || d == UPPER_N { LF } else { d }
}

/// Decodes TEXT escapes: `\\`, `\;`, `\,`, `\n` and `\N`. A backslash that
/// starts none of these is kept as it is.
pub open spec fn unescape_text(v: Seq<u8>) -> Seq<u8>
    decreases v.len(),
{
    if v.len() == 0 {
        seq![]
    } else if v[0] == BACKSLASH && v.len() >= 2 && is_text_escape(v[1]) {
        seq![text_escape_meaning(v[1])] + unescape_text(v.skip(2))
    } else {
        seq![v[0]] + unescape_text(v.skip(1))
    }
}

/// How one byte of a TEXT value is written.
pub open spec fn escape_byte(b: u8) -> Seq<u8> {
    if b == BACKSLASH || b == SEMICOLON || b == COMMA {
        seq![BACKSLASH, b]
    } else if b == LF {
        seq![BACKSLASH, LOWER_N]
    } else {
        seq![b]
    }
}

/// Encodes a TEXT value: `\`, `;` and `,` get a backslash before them, and
/// a line feed is written `\n`.
pub open spec fn escape_text(v: Seq<u8>) -> Seq<u8>
    decreases v.len(),
{
    if v.len() == 0 {
        seq![]
    } else {
        escape_byte(v[0]) + escape_text(v.skip(1))
    }
}

/// Decoding what escaping wrote gives back the text.
pub proof fn lemma_unescape_escape(v: Seq<u8>)
    ensures
        unescape_text(escape_text(v)) == v,
    decreases v.len(),
{
    if v.len() > 0 {
        lemma_unescape_escape(v.skip(1));
        let e = escape_text(v);
        let t = escape_text(v.skip(1));
        assert(e == escape_byte(v[0]) + t);
        let b = v[0];
        if b == BACKSLASH || b == SEMICOLON || b == COMMA || b == LF {
            assert(e.skip(2) =~= t);
            assert(e[0] == BACKSLASH && is_text_escape(e[1]));
        } else {
            assert(e.skip(1) =~= t);
        }
        assert(v =~= seq![v[0]] + v.skip(1));
    }
}

proof fn lemma_escape_concat(a: Seq<u8>, b: Seq<u8>)
    ensures
        escape_text(a + b) == escape_text(a) + escape_text(b),
    decreases a.len(),
{
    if a.len() > 0 {
        lemma_escape_concat(a.skip(1), b);
        assert((a + b).skip(1) =~= a.skip(1) + b);
        assert((a + b)[0] == a[0]);
        assert(escape_text(a + b) =~= escape_byte(a[0]) + (escape_text(a.skip(1)) + escape_text(
            b,
        )));
    } else {
        assert(a + b =~= b);
    }
}

/// Escaping leaves bytes of `0x80` and above alone.
proof fn lemma_escape_high(v: Seq<u8>)
    requires
        forall|i: int| 0 <= i < v.len() ==> #[trigger] v[i] >= 0x80,
    ensures
        escape_text(v) == v,
    decreases v.len(),
{
    if v.len() > 0 {
        lemma_escape_high(v.skip(1));
        assert(v =~= seq![v[0]] + v.skip(1));
    }
}

/// Escaping keeps UTF-8 valid: it only adds a backslash before ASCII bytes.
pub proof fn lemma_escape_valid(v: Seq<u8>)
    requires
        valid_utf8(v),
    ensures
        valid_utf8(escape_text(v)),
    decreases v.len(),
{
    if v.len() > 0 {
        let n = length_of_first_scalar(v);
        let head = v.take(n);
        let rest = pop_first_scalar(v);
        assert(v =~= head + rest);
        lemma_escape_concat(head, rest);
        assert(rest.len() < v.len());
        lemma_escape_valid(rest);
        if n == 1 {
            let b = v[0];
            assert(head =~= seq![b]);
            assert(escape_text(head) =~= escape_byte(b) + escape_text(head.skip(1)));
            assert(head.skip(1) =~= Seq::<u8>::empty());
            assert(escape_text(head) =~= escape_byte(b));
            crate::bytes::lemma_ascii_valid(b);
            crate::bytes::lemma_ascii_valid(BACKSLASH);
            crate::bytes::lemma_ascii_valid(LOWER_N);
            valid_utf8_concat(seq![BACKSLASH], seq![b]);
            valid_utf8_concat(seq![BACKSLASH], seq![LOWER_N]);
            assert(seq![BACKSLASH] + seq![b] =~= seq![BACKSLASH, b]);
            assert(seq![BACKSLASH] + seq![LOWER_N] =~= seq![BACKSLASH, LOWER_N]);
        } else {
            assert forall|i: int| 0 <= i < head.len() implies #[trigger] head[i] >= 0x80 by {
                assert(head[i] == v[i]);
            }
            lemma_escape_high(head);
            assert(valid_first_scalar(head));
            assert(pop_first_scalar(head) =~= Seq::<u8>::empty());
            assert(valid_utf8(pop_first_scalar(head)));
            assert(valid_utf8(head));
        }
        valid_utf8_concat(escape_text(head), escape_text(rest));
    }
}

fn unescape(v: &[u8]) -> (r: Vec<u8>)
    ensures
        r@ == unescape_text(v@),
{
    let mut out: Vec<u8> = Vec::new();
    let mut i: usize = 0;
    assert(v@.skip(0) =~= v@);
    assert(out@ + unescape_text(v@) =~= unescape_text(v@));
    while i < v.len()
        invariant
            i <= v.len(),
            out@ + unescape_text(v@.skip(i as int)) == unescape_text(v@),
        decreases v.len() - i,
    {
        let ghost rest = v@.skip(i as int);
        let b = v[i];
        assert(rest[0] == b);
        if b == BACKSLASH && i + 1 < v.len() && (v[i + 1] == BACKSLASH || v[i + 1] == SEMICOLON
            || v[i + 1] == COMMA || v[i + 1] == LOWER_N || v[i + 1] == UPPER_N) {
            let d = v[i + 1];
            assert(rest[1] == d);
            let m: u8 = if d == LOWER_N || d == UPPER_N { LF } else { d };
            assert(rest.skip(2) =~= v@.skip(i + 2));
            out.push(m);
            assert(out@ + unescape_text(v@.skip(i + 2)) =~= old_out_plus(out@, m, unescape_text(
                v@.skip(i + 2),
            )));
            i += 2;
        } else {
            assert(rest.skip(1) =~= v@.skip(i + 1));
            out.push(b);
            i += 1;
        }
    }
    assert(v@.skip(v.len() as int) =~= Seq::<u8>::empty());
    out
}

spec fn old_out_plus(out: Seq<u8>, m: u8, tail: Seq<u8>) -> Seq<u8> {
    out + tail
}

fn escape(v: &[u8], out: &mut Vec<u8>)
    ensures
        final(out)@ == old(out)@ + escape_text(v@),
{
    let mut i: usize = 0;
    assert(v@.skip(0) =~= v@);
    while i < v.len()
        invariant
            i <= v.len(),
            out@ + escape_text(v@.skip(i as int)) == old(out)@ + escape_text(v@),
        decreases v.len() - i,
    {
        let ghost rest = v@.skip(i as int);
        let b = v[i];
        assert(rest[0] == b);
        assert(rest.skip(1) =~= v@.skip(i + 1));
        if b == BACKSLASH || b == SEMICOLON || b == COMMA {
            out.push(BACKSLASH);
            out.push(b);
        } else if b == LF {
            out.push(BACKSLASH);
            out.push(LOWER_N);
        } else {
            out.push(b);
        }
        i += 1;
    }
    assert(v@.skip(v.len() as int) =~= Seq::<u8>::empty());
}

/// A TEXT value (RFC 5545 §3.3.11), held decoded.
#[derive(Debug)]
pub struct Text(String);

impl View for Text {
    type V = Seq<char>;

    closed spec fn view(&self) -> Seq<char> {
        self.0@
    }
}

impl Text {
    /// The text's UTF-8 bytes.
    pub open spec fn bytes(&self) -> Seq<u8> {
        encode_utf8(self@)
    }

    /// How the text is written in a content line, escaped.
    pub open spec fn escaped(&self) -> Seq<u8> {
        escape_text(self.bytes())
    }

    /// The text, decoded.
    pub fn as_str(&self) -> (r: &str)
        ensures
            r@ == self@,
    {
        self.0.as_str()
    }

    /// Appends the text as a content line writes it, escaped.
    pub fn write_escaped(&self, out: &mut Vec<u8>)
        ensures
            final(out)@ == old(out)@ + self.escaped(),
    {
        escape(self.0.as_str().as_bytes(), out)
    }

    /// Appends the text as it is, unescaped.
    pub fn write_raw(&self, out: &mut Vec<u8>)
        ensures
            final(out)@ == old(out)@ + self.bytes(),
    {
        append(out, self.0.as_str().as_bytes())
    }

    /// Whether `v` parses as TEXT: decoded, it is UTF-8.
    pub open spec fn parses(v: Seq<u8>) -> bool {
        valid_utf8(unescape_text(v))
    }

    /// Whether `t` is what `v` parses to: `v` with its escapes decoded.
    pub open spec fn accepts(v: Seq<u8>, t: Text) -> bool {
        t.bytes() == unescape_text(v)
    }

    /// Parses a TEXT value, decoding its escapes.
    pub fn try_from(v: &[u8]) -> (r: Result<Text, ValueError>)
        ensures
            r is Ok <==> Text::parses(v@),
            r matches Ok(t) ==> Text::accepts(v@, t),
    {
        Text::parse(v)
    }

    /// Parses a TEXT value, decoding its escapes.
    pub fn parse(v: &[u8]) -> (r: Result<Text, ValueError>)
        ensures
            r is Ok <==> valid_utf8(unescape_text(v@)),
            r matches Ok(t) ==> t.bytes() == unescape_text(v@),
    {
        match string_from_utf8(unescape(v)) {
            Some(s) => Ok(Text(s)),
            None => Err(ValueError::Utf8),
        }
    }

    /// Text holding exactly `s`, with nothing decoded.
    pub fn from_str(s: &str) -> (r: Text)
        ensures
            r@ == s@,
    {
        Text(s.to_owned())
    }
}

impl<'a> From<&'a str> for Text {
    fn from(s: &'a str) -> (r: Text)
        ensures
            r@ == s@,
    {
        Text(s.to_owned())
    }
}

impl<'a> vstd::std_specs::convert::FromSpecImpl<&'a str> for Text {
    open spec fn obeys_from_spec() -> bool {
        false
    }

    open spec fn from_spec(s: &'a str) -> Text {
        arbitrary()
    }
}

impl Ical for Text {
    /// A TEXT value is written escaped.
    open spec fn ical(&self) -> Seq<u8> {
        self.escaped()
    }

    proof fn lemma_ical_valid(&self) {
        encode_utf8_valid_utf8(self@);
        lemma_escape_valid(self.bytes());
    }

    fn write_to(&self, out: &mut Vec<u8>) {
        self.write_escaped(out)
    }
}

// ---------------------------------------------------------------------
// URI (RFC 5545 §3.3.13).

pub open spec fn is_scheme_char(b: u8) -> bool {
    is_alnum(b) || b == PLUS || b == HYPHEN || b == DOT
}

/// Bytes that may stand in a URI after its scheme: no whitespace or
/// control character, and none of `"<>\^`{|}`.
pub open spec fn is_uri_char(b: u8) -> bool {
    b > SPACE && b != 0x7F && b != DQUOTE && b != 60 && b != 62 && b != BACKSLASH && b != 94 && b
        != 96 && b != 123 && b != 124 && b != 125
}

/// Whether `v` is a URI: a scheme (a letter, then letters, digits, `+`,
/// `-`, `.`), a `:`, then URI characters.
pub open spec fn is_uri(v: Seq<u8>) -> bool {
    match first_byte(v, COLON) {
        Some(k) => k >= 1 && is_alpha(v[0]) && (forall|i: int| 1 <= i < k ==> is_scheme_char(
            #[trigger] v[i],
        )) && (forall|i: int| k < i < v.len() ==> is_uri_char(#[trigger] v[i])),
        None => false,
    }
}

fn check_uri(v: &[u8]) -> (r: bool)
    ensures
        r == is_uri(v@),
{
    proof {
        lemma_scan_byte(v@, COLON, 0);
    }
    let found = find_byte(v, COLON);
    let k = match found {
        Some(k) => k,
        None => {
            return false;
        },
    };
    if k == 0 || !((UPPER_A <= v[0] && v[0] <= UPPER_Z) || (LOWER_A <= v[0] && v[0] <= LOWER_Z)) {
        assert(!is_uri(v@));
        return false;
    }
    let mut i: usize = 1;
    while i < k
        invariant
            1 <= i <= k < v.len(),
            first_byte(v@, COLON) == Some(k as int),
            forall|j: int| 1 <= j < i ==> is_scheme_char(#[trigger] v@[j]),
        decreases k - i,
    {
        let b = v[i];
        if !(is_ascii_alnum(b) || b == PLUS || b == HYPHEN || b == DOT) {
            assert(!is_scheme_char(v@[i as int]));
            assert(!is_uri(v@));
            return false;
        }
        i += 1;
    }
    let mut j: usize = k + 1;
    while j < v.len()
        invariant
            1 <= k < j <= v.len(),
            first_byte(v@, COLON) == Some(k as int),
            is_alpha(v@[0]),
            forall|m: int| 1 <= m < k ==> is_scheme_char(#[trigger] v@[m]),
            forall|m: int| k < m < j ==> is_uri_char(#[trigger] v@[m]),
        decreases v.len() - j,
    {
        let b = v[j];
        if !(b > SPACE && b != 0x7F && b != DQUOTE && b != 60 && b != 62 && b != BACKSLASH && b
            != 94 && b != 96 && b != 123 && b != 124 && b != 125) {
            assert(!is_uri_char(v@[j as int]));
            assert(!is_uri(v@));
            return false;
        }
        j += 1;
    }
    true
}

/// A URI value.
#[derive(Debug)]
pub struct Uri(String);

impl View for Uri {
    type V = Seq<char>;

    closed spec fn view(&self) -> Seq<char> {
        self.0@
    }
}

impl Uri {
    /// Whether `v` parses as a URI.
    pub open spec fn parses(v: Seq<u8>) -> bool {
        is_uri(v) && valid_utf8(v)
    }

    /// Whether `u` is what `v` parses to: `v` itself.
    pub open spec fn accepts(v: Seq<u8>, u: Uri) -> bool {
        u.bytes() == v
    }

    /// The URI's bytes.
    pub open spec fn bytes(&self) -> Seq<u8> {
        encode_utf8(self@)
    }

    /// Parses a URI from bytes.
    pub fn try_from(v: &[u8]) -> (r: Result<Uri, ValueError>)
        ensures
            r is Ok <==> is_uri(v@) && valid_utf8(v@),
            r matches Ok(u) ==> u.bytes() == v@,
    {
        if !check_uri(v) {
            return Err(
                ValueError::Malformed {
                    expected: "a URI".to_owned(),
                    received: string_from_utf8(copy_range(v, 0, v.len())),
                },
            );
        }
        let c = copy_range(v, 0, v.len());
        assert(c@ =~= v@);
        match string_from_utf8(c) {
            Some(s) => Ok(Uri(s)),
            None => Err(ValueError::Utf8),
        }
    }

    /// Parses a URI from text.
    pub fn parse(s: &str) -> (r: Result<Uri, ValueError>)
        ensures
            r is Ok <==> is_uri(s.spec_bytes()),
            r matches Ok(u) ==> u@ == s@,
    {
        proof {
            vstd::utf8::encode_utf8_valid_utf8(s@);
        }
        let r = Uri::try_from(s.as_bytes());
        proof {
            if r is Ok {
                let u = r->Ok_0;
                vstd::utf8::encode_utf8_decode_utf8(u@);
                vstd::utf8::encode_utf8_decode_utf8(s@);
            }
        }
        r
    }

    /// The URI as text.
    pub fn as_str(&self) -> (r: &str)
        ensures
            r@ == self@,
    {
        self.0.as_str()
    }

}

impl Ical for Uri {
    open spec fn ical(&self) -> Seq<u8> {
        self.bytes()
    }

    proof fn lemma_ical_valid(&self) {
        encode_utf8_valid_utf8(self@);
    }

    fn write_to(&self, out: &mut Vec<u8>) {
        append(out, self.0.as_str().as_bytes())
    }
}

/// A calendar user address (RFC 5545 §3.3.3): a URI, most often `mailto:`.
#[derive(Debug)]
pub struct CalendarUserAddress(Uri);

impl CalendarUserAddress {
    /// The address's bytes.
    pub closed spec fn bytes(&self) -> Seq<u8> {
        self.0.bytes()
    }

    /// The address is valid UTF-8.
    pub proof fn lemma_bytes_valid(&self)
        ensures
            valid_utf8(self.bytes()),
    {
        encode_utf8_valid_utf8(self.0@);
    }

    /// Uses `uri` as a calendar user address. Every URI is accepted.
    pub fn new(uri: Uri) -> (r: Result<CalendarUserAddress, ValueError>)
        ensures
            r matches Ok(a) && a.bytes() == uri.bytes(),
    {
        Ok(CalendarUserAddress(uri))
    }

    /// Parses a calendar user address from bytes.
    pub fn try_from(v: &[u8]) -> (r: Result<CalendarUserAddress, ValueError>)
        ensures
            r is Ok <==> is_uri(v@) && valid_utf8(v@),
            r matches Ok(a) ==> a.bytes() == v@,
    {
        let uri = Uri::try_from(v)?;
        Ok(CalendarUserAddress(uri))
    }

    /// The address as a URI.
    pub fn uri(&self) -> (r: &Uri)
        ensures
            r.bytes() == self.bytes(),
    {
        &self.0
    }

    /// Whether `v` parses as a calendar user address: a URI.
    pub open spec fn parses(v: Seq<u8>) -> bool {
        is_uri(v) && valid_utf8(v)
    }

    /// Whether `a` is what `v` parses to: `v` itself.
    pub open spec fn accepts(v: Seq<u8>, a: CalendarUserAddress) -> bool {
        a.bytes() == v
    }
}

impl Ical for CalendarUserAddress {
    open spec fn ical(&self) -> Seq<u8> {
        self.bytes()
    }

    proof fn lemma_ical_valid(&self) {
        self.lemma_bytes_valid();
    }

    fn write_to(&self, out: &mut Vec<u8>) {
        self.0.write_to(out)
    }
}

// ---------------------------------------------------------------------
// Media types (RFC 4288), as carried by FMTTYPE.

/// Whether `v` is `type "/" subtype`, both halves non-empty.
pub open spec fn is_media_type(v: Seq<u8>) -> bool {
    match first_byte(v, SLASH) {
        Some(k) => 0 < k < v.len() - 1,
        None => false,
    }
}

/// A media type: a top-level type and a subtype.
#[derive(Debug)]
pub struct MediaType {
    type_: String,
    subtype: String,
}

impl MediaType {
    /// The media type as written: `type/subtype`.
    pub closed spec fn bytes(&self) -> Seq<u8> {
        encode_utf8(self.type_@) + seq![SLASH] + encode_utf8(self.subtype@)
    }

    /// The media type is valid UTF-8.
    pub proof fn lemma_bytes_valid(&self)
        ensures
            valid_utf8(self.bytes()),
    {
        encode_utf8_valid_utf8(self.type_@);
        encode_utf8_valid_utf8(self.subtype@);
        crate::bytes::lemma_ascii_valid(SLASH);
        valid_utf8_concat(encode_utf8(self.type_@), seq![SLASH]);
        valid_utf8_concat(encode_utf8(self.type_@) + seq![SLASH], encode_utf8(self.subtype@));
    }

    /// A media type from its two halves.
    pub fn new(type_: &str, subtype: &str) -> (r: MediaType)
        ensures
            r.bytes() == type_.spec_bytes() + seq![SLASH] + subtype.spec_bytes(),
    {
        MediaType { type_: type_.to_owned(), subtype: subtype.to_owned() }
    }

    /// Parses `type/subtype`, split at the first `/`.
    pub fn try_from(v: &[u8]) -> (r: Result<MediaType, ValueError>)
        ensures
            r is Ok <==> is_media_type(v@) && valid_utf8(v@.take(first_byte(v@, SLASH)->0))
                && valid_utf8(v@.skip(first_byte(v@, SLASH)->0 + 1)),
            r matches Ok(m) ==> m.bytes() == v@,
    {
        proof {
            lemma_scan_byte(v@, SLASH, 0);
        }
        let k = match find_byte(v, SLASH) {
            Some(k) => k,
            None => {
                return Err(
                    ValueError::Malformed {
                        expected: "type/subtype".to_owned(),
                        received: string_from_utf8(copy_range(v, 0, v.len())),
                    },
                );
            },
        };
        if k == 0 || k >= v.len() - 1 {
            return Err(
                ValueError::Malformed {
                    expected: "type/subtype".to_owned(),
                    received: string_from_utf8(copy_range(v, 0, v.len())),
                },
            );
        }
        let t = copy_range(v, 0, k);
        let st = copy_range(v, k + 1, v.len());
        assert(t@ =~= v@.take(k as int));
        assert(st@ =~= v@.skip(k + 1));
        let type_ = match string_from_utf8(t) {
            Some(s) => s,
            None => {
                return Err(ValueError::Utf8);
            },
        };
        let subtype = match string_from_utf8(st) {
            Some(s) => s,
            None => {
                return Err(ValueError::Utf8);
            },
        };
        let r = MediaType { type_, subtype };
        assert(r.bytes() =~= v@);
        Ok(r)
    }

    /// Appends `type/subtype`.
    pub fn write_to(&self, out: &mut Vec<u8>)
        ensures
            final(out)@ == old(out)@ + self.bytes(),
    {
        append(out, self.type_.as_str().as_bytes());
        out.push(SLASH);
        append(out, self.subtype.as_str().as_bytes());
        assert(out@ =~= old(out)@ + self.bytes());
    }
}

// ---------------------------------------------------------------------
// BOOLEAN (RFC 5545 §3.3.2).

/// The boolean `v` spells, case-insensitively.
pub open spec fn boolean_of(v: Seq<u8>) -> Option<bool> {
    if upper(v) == "TRUE".spec_bytes() {
        Some(true)
    } else if upper(v) == "FALSE".spec_bytes() {
        Some(false)
    } else {
        None
    }
}

/// A BOOLEAN value.
#[derive(Debug, Clone, Copy, PartialEq, Eq, Structural)]
pub struct Boolean(bool);

impl Boolean {
    pub closed spec fn spec_value(&self) -> bool {
        self.0
    }

    /// A boolean value.
    pub fn new(b: bool) -> (r: Boolean)
        ensures
            r.spec_value() == b,
    {
        Boolean(b)
    }

    /// The value.
    pub fn value(&self) -> (r: bool)
        ensures
            r == self.spec_value(),
    {
        self.0
    }

    /// Parses `TRUE` or `FALSE`, in any case.
    pub fn try_from(v: &[u8]) -> (r: Result<Boolean, ValueError>)
        ensures
            match boolean_of(v@) {
                Some(b) => r matches Ok(x) && x.spec_value() == b,
                None => r is Err,
            },
    {
        let u = to_upper(v);
        if crate::bytes::eq_str(u.as_slice(), "TRUE") {
            Ok(Boolean(true))
        } else if crate::bytes::eq_str(u.as_slice(), "FALSE") {
            Ok(Boolean(false))
        } else {
            Err(
                ValueError::Malformed {
                    expected: "TRUE or FALSE".to_owned(),
                    received: string_from_utf8(u),
                },
            )
        }
    }
}

// ---------------------------------------------------------------------
// INTEGER (RFC 5545 §3.3.8).

pub open spec fn is_digit_byte(b: u8) -> bool {
    DIGIT_ZERO <= b <= DIGIT_NINE
}

pub open spec fn all_digits(v: Seq<u8>) -> bool {
    forall|i: int| 0 <= i < v.len() ==> is_digit_byte(#[trigger] v[i])
}

/// The number the decimal digits `v` spell.
pub open spec fn digits_value(v: Seq<u8>) -> nat
    decreases v.len(),
{
    if v.len() == 0 {
        0
    } else {
        digits_value(v.drop_last()) * 10 + (v.last() - DIGIT_ZERO) as nat
    }
}

/// The integer `v` spells: an optional sign, then one or more digits.
pub open spec fn integer_of(v: Seq<u8>) -> Option<int> {
    let neg = v.len() > 0 && v[0] == HYPHEN;
    let signed = v.len() > 0 && (v[0] == HYPHEN || v[0] == PLUS);
    let digits = if signed { v.skip(1) } else { v };
    if digits.len() == 0 || !all_digits(digits) {
        None
    } else if neg {
        Some(-digits_value(digits))
    } else {
        Some(digits_value(digits) as int)
    }
}

/// The decimal digits of `n`, without leading zeros.
pub open spec fn decimal(n: nat) -> Seq<u8>
    decreases n,
{
    if n < 10 {
        seq![(n + DIGIT_ZERO) as u8]
    } else {
        decimal(n / 10) + seq![((n % 10) + DIGIT_ZERO) as u8]
    }
}

/// How an integer is written: `-` for a negative one, then its digits.
pub open spec fn integer_text(n: int) -> Seq<u8> {
    if n < 0 {
        seq![HYPHEN] + decimal((-n) as nat)
    } else {
        decimal(n as nat)
    }
}

proof fn lemma_digits_value_prefix(v: Seq<u8>, i: int)
    requires
        0 <= i <= v.len(),
        all_digits(v),
    ensures
        digits_value(v.take(i)) <= digits_value(v),
    decreases v.len() - i,
{
    if i < v.len() {
        lemma_digits_value_prefix(v, i + 1);
        assert(v.take(i + 1).drop_last() =~= v.take(i));
        assert(digits_value(v.take(i)) * 10 >= digits_value(v.take(i))) by (nonlinear_arith);
    } else {
        assert(v.take(i) =~= v);
    }
}

/// Decimal digits spell back their number.
pub proof fn lemma_decimal_digits(n: nat)
    ensures
        all_digits(decimal(n)),
        decimal(n).len() > 0,
        digits_value(decimal(n)) == n,
    decreases n,
{
    let d = decimal(n);
    assert(digits_value(d) == digits_value(d.drop_last()) * 10 + (d.last() - DIGIT_ZERO) as nat);
    if n >= 10 {
        lemma_decimal_digits(n / 10);
        assert(d.drop_last() =~= decimal(n / 10));
        assert(n == (n / 10) * 10 + n % 10);
        assert(d.last() == ((n % 10) + DIGIT_ZERO) as u8);
        assert((d.last() - DIGIT_ZERO) as nat == n % 10);
    } else {
        assert(d.drop_last() =~= Seq::<u8>::empty());
        assert((d.last() - DIGIT_ZERO) as nat == n);
    }
}

/// Reading a written integer gives it back.
pub proof fn lemma_integer_round_trip(n: int)
    ensures
        integer_of(integer_text(n)) == Some(n),
{
    if n < 0 {
        lemma_decimal_digits((-n) as nat);
        assert(integer_text(n).skip(1) =~= decimal((-n) as nat));
    } else {
        lemma_decimal_digits(n as nat);
        let d = decimal(n as nat);
        assert(d[0] != HYPHEN && d[0] != PLUS) by {
            assert(is_digit_byte(d[0]));
        }
    }
}

/// An INTEGER value, a signed 32-bit number.
#[derive(Debug, Clone, Copy, PartialEq, Eq, Structural)]
pub struct Integer(i32);

pub(crate) fn write_decimal(n: u64, out: &mut Vec<u8>)
    ensures
        final(out)@ == old(out)@ + decimal(n as nat),
    decreases n,
{
    if n >= 10 {
        write_decimal(n / 10, out);
    }
    out.push(((n % 10) as u8) + DIGIT_ZERO);
    assert(out@ =~= old(out)@ + decimal(n as nat));
}

impl Integer {
    /// Whether `v` parses as an INTEGER: an optional sign, digits, and a
    /// value that fits in 32 bits.
    pub open spec fn parses(v: Seq<u8>) -> bool {
        integer_of(v) matches Some(n) && i32::MIN <= n <= i32::MAX
    }

    /// Whether `x` is what `v` parses to.
    pub open spec fn accepts(v: Seq<u8>, x: Integer) -> bool {
        integer_of(v) == Some(x.spec_value())
    }

    pub closed spec fn spec_value(&self) -> int {
        self.0 as int
    }

    /// An integer value.
    pub fn new(n: i32) -> (r: Integer)
        ensures
            r.spec_value() == n,
    {
        Integer(n)
    }

    /// The value.
    pub fn value(&self) -> (r: i32)
        ensures
            r as int == self.spec_value(),
    {
        self.0
    }

    /// How the integer is written.
    pub open spec fn text(&self) -> Seq<u8> {
        integer_text(self.spec_value())
    }

    /// Parses an optional sign and decimal digits, which must fit in 32
    /// bits.
    pub fn try_from(v: &[u8]) -> (r: Result<Integer, ValueError>)
        ensures
            match integer_of(v@) {
                Some(n) => if i32::MIN <= n <= i32::MAX {
                    r matches Ok(x) && x.spec_value() == n
                } else {
                    r is Err
                },
                None => r is Err,
            },
    {
        let neg = v.len() > 0 && v[0] == HYPHEN;
        let start: usize = if v.len() > 0 && (v[0] == HYPHEN || v[0] == PLUS) {
            1
        } else {
            0
        };
        let ghost digits = v@.skip(start as int);
        assert(v@.skip(0) =~= v@);
        proof {
            let signed = v@.len() > 0 && (v@[0] == HYPHEN || v@[0] == PLUS);
            assert(digits == if signed {
                v@.skip(1)
            } else {
                v@
            });
        }
        if start >= v.len() {
            assert(digits.len() == 0);
            return Err(ValueError::Malformed { expected: "an INTEGER".to_owned(), received: None });
        }
        let mut acc: u64 = 0;
        let mut i: usize = start;
        while i < v.len()
            invariant
                start <= i <= v.len(),
                start < v.len(),
                digits == v@.skip(start as int),
                start == (if v@.len() > 0 && (v@[0] == HYPHEN || v@[0] == PLUS) {
                    1int
                } else {
                    0int
                }),
                neg == (v@.len() > 0 && v@[0] == HYPHEN),
                all_digits(digits.take(i - start)),
                acc as nat == digits_value(digits.take(i - start)),
                acc <= 0x8000_0000,
            decreases v.len() - i,
        {
            let b = v[i];
            assert(digits[i - start] == b);
            if !(DIGIT_ZERO <= b && b <= DIGIT_NINE) {
                assert(!is_digit_byte(digits[i - start]));
                assert(!all_digits(digits));
                assert(integer_of(v@) is None);
                return Err(
                    ValueError::Malformed { expected: "an INTEGER".to_owned(), received: None },
                );
            }
            assert(digits.take(i - start + 1).drop_last() =~= digits.take(i - start));
            acc = acc * 10 + ((b - DIGIT_ZERO) as u64);
            i += 1;
            if acc > 0x8000_0000 {
                proof {
                    let k = i - start;
                    assert(acc as nat == digits_value(digits.take(k)));
                    assert(v@.skip(0) =~= v@);
                    if all_digits(digits) {
                        lemma_digits_value_prefix(digits, k);
                        assert(digits_value(digits) > 0x8000_0000);
                        assert(integer_of(v@) matches Some(n) && (n < i32::MIN || n > i32::MAX));
                    }
                }
                return Err(
                    ValueError::Malformed { expected: "an INTEGER".to_owned(), received: None },
                );
            }
        }
        assert(digits.take(v.len() - start) =~= digits);
        if neg {
            let m: i64 = 0i64 - (acc as i64);
            Ok(Integer(m as i32))
        } else if acc <= 0x7FFF_FFFF {
            Ok(Integer(acc as i32))
        } else {
            Err(ValueError::Malformed { expected: "an INTEGER".to_owned(), received: None })
        }
    }

}

impl Ical for Integer {
    open spec fn ical(&self) -> Seq<u8> {
        self.text()
    }

    proof fn lemma_ical_valid(&self) {
        lemma_decimal_digits(if self.spec_value() < 0 {
            (-self.spec_value()) as nat
        } else {
            self.spec_value() as nat
        });
        crate::bytes::lemma_ascii_seq_valid(self.text());
    }

    fn write_to(&self, out: &mut Vec<u8>)
    {
        if self.0 < 0 {
            out.push(HYPHEN);
            let m: i64 = 0i64 - (self.0 as i64);
            write_decimal(m as u64, out);
            assert(out@ =~= old(out)@ + self.text());
        } else {
            write_decimal(self.0 as u64, out);
            assert(out@ =~= old(out)@ + self.text());
        }
        assert(self.ical() == self.text());
    }
}

// ---------------------------------------------------------------------
// Lists of TEXT values.

/// The first `c` at or after `i` that no backslash escapes: a backslash
/// escapes the byte after it.
pub open spec fn scan_unescaped(v: Seq<u8>, c: u8, i: int) -> Option<int>
    decreases v.len() + 2 - i,
{
    if i < 0 || i >= v.len() {
        None
    } else if v[i] == BACKSLASH {
        scan_unescaped(v, c, i + 2)
    } else if v[i] == c {
        Some(i)
    } else {
        scan_unescaped(v, c, i + 1)
    }
}

pub proof fn lemma_scan_unescaped_bounds(v: Seq<u8>, c: u8, i: int)
    requires
        0 <= i,
    ensures
        scan_unescaped(v, c, i) matches Some(k) ==> i <= k < v.len() && v[k] == c,
    decreases v.len() + 2 - i,
{
    if 0 <= i < v.len() {
        if v[i] == BACKSLASH {
            lemma_scan_unescaped_bounds(v, c, i + 2);
        } else if v[i] != c {
            lemma_scan_unescaped_bounds(v, c, i + 1);
        }
    }
}

/// The pieces of `v[start..]` between its unescaped commas.
pub open spec fn unescaped_pieces_from(v: Seq<u8>, start: int) -> Seq<Seq<u8>>
    decreases v.len() + 1 - start,
{
    if start < 0 || start > v.len() {
        seq![]
    } else {
        match scan_unescaped(v, COMMA, start) {
            Some(k) => if start <= k < v.len() {
                seq![v.subrange(start, k)] + unescaped_pieces_from(v, k + 1)
            } else {
                seq![]
            },
            None => seq![v.subrange(start, v.len() as int)],
        }
    }
}

/// The pieces of a list value between its unescaped commas.
pub open spec fn unescaped_pieces(v: Seq<u8>) -> Seq<Seq<u8>> {
    unescaped_pieces_from(v, 0)
}

fn find_unescaped_from(v: &[u8], c: u8, from: usize) -> (r: Option<usize>)
    requires
        from <= v.len(),
    ensures
        match scan_unescaped(v@, c, from as int) {
            Some(k) => r == Some(k as usize),
            None => r is None,
        },
{
    proof {
        lemma_scan_unescaped_bounds(v@, c, from as int);
    }
    let mut i: usize = from;
    while i < v.len()
        invariant
            from <= i,
            scan_unescaped(v@, c, from as int) == scan_unescaped(v@, c, i as int),
        decreases v.len() + 2 - i,
    {
        if v[i] == BACKSLASH {
            if v.len() - i < 2 {
                assert(scan_unescaped(v@, c, i + 2) is None);
                return None;
            }
            i += 2;
        } else if v[i] == c {
            return Some(i);
        } else {
            i += 1;
        }
    }
    None
}

/// Splits a list value at its unescaped commas.
pub fn split_unescaped(v: &[u8]) -> (r: Vec<Vec<u8>>)
    ensures
        crate::bytes::vec_views(r@) == unescaped_pieces(v@),
{
    let mut out: Vec<Vec<u8>> = Vec::new();
    let mut start: usize = 0;
    assert(crate::bytes::vec_views(out@) =~= Seq::<Seq<u8>>::empty());
    loop
        invariant
            start <= v.len(),
            crate::bytes::vec_views(out@) + unescaped_pieces_from(v@, start as int)
                == unescaped_pieces(v@),
        decreases v.len() - start,
    {
        proof {
            lemma_scan_unescaped_bounds(v@, COMMA, start as int);
        }
        let ghost before = crate::bytes::vec_views(out@);
        match find_unescaped_from(v, COMMA, start) {
            Some(k) => {
                let piece = crate::bytes::copy_range(v, start, k);
                out.push(piece);
                assert(crate::bytes::vec_views(out@) =~= before.push(piece@));
                assert(before.push(piece@) + unescaped_pieces_from(v@, k + 1) =~= before + (seq![
                    v@.subrange(start as int, k as int),
                ] + unescaped_pieces_from(v@, k + 1)));
                start = k + 1;
            },
            None => {
                let piece = crate::bytes::copy_range(v, start, v.len());
                out.push(piece);
                assert(crate::bytes::vec_views(out@) =~= before.push(piece@));
                return out;
            },
        }
    }
}

/// Whether every piece of a list value parses as TEXT.
pub open spec fn text_list_parses(v: Seq<u8>) -> bool {
    forall|i: int|
        0 <= i < unescaped_pieces(v).len() ==> Text::parses(#[trigger] unescaped_pieces(v)[i])
}

/// Whether `ts` is what a list value parses to: each piece, decoded.
pub open spec fn text_list_accepts(v: Seq<u8>, ts: Seq<Text>) -> bool {
    ts.len() == unescaped_pieces(v).len() && forall|i: int|
        0 <= i < ts.len() ==> Text::accepts(unescaped_pieces(v)[i], #[trigger] ts[i])
}

/// A list of TEXT values as written: each escaped, `,` between them.
pub open spec fn text_list_ical(ts: Seq<Text>) -> Seq<u8> {
    crate::bytes::joined(ts.map_values(|t: Text| t.escaped()), COMMA)
}

/// Parses a list of TEXT values.
pub fn parse_text_list(v: &[u8]) -> (r: Result<Vec<Text>, ValueError>)
    ensures
        r is Ok <==> text_list_parses(v@),
        r matches Ok(ts) ==> text_list_accepts(v@, ts@),
{
    let ps = split_unescaped(v);
    let ghost all = unescaped_pieces(v@);
    let mut out: Vec<Text> = Vec::new();
    let mut i: usize = 0;
    while i < ps.len()
        invariant
            i <= ps.len(),
            crate::bytes::vec_views(ps@) == all,
            all == unescaped_pieces(v@),
            out@.len() == i,
            forall|j: int| 0 <= j < i ==> Text::parses(#[trigger] all[j]),
            forall|j: int| 0 <= j < i ==> Text::accepts(all[j], #[trigger] out@[j]),
        decreases ps.len() - i,
    {
        assert(ps@[i as int]@ == all[i as int]);
        let t = Text::try_from(ps[i].as_slice())?;
        out.push(t);
        i += 1;
    }
    Ok(out)
}

/// Appends a list of TEXT values as written.
pub fn write_text_list(ts: &[Text], out: &mut Vec<u8>)
    ensures
        final(out)@ == old(out)@ + text_list_ical(ts@),
{
    let mut i: usize = 0;
    assert(ts@.take(0).map_values(|t: Text| t.escaped()) =~= seq![]);
    while i < ts.len()
        invariant
            i <= ts@.len(),
            out@ == old(out)@ + crate::bytes::joined(
                ts@.take(i as int).map_values(|t: Text| t.escaped()),
                COMMA,
            ),
        decreases ts@.len() - i,
    {
        let ghost prev = ts@.take(i as int).map_values(|t: Text| t.escaped());
        let ghost before = out@;
        if i > 0 {
            out.push(COMMA);
        }
        ts[i].write_escaped(out);
        proof {
            let w = ts@[i as int].escaped();
            assert(ts@.take(i + 1).map_values(|t: Text| t.escaped()) =~= prev.push(w));
            crate::bytes::lemma_joined_push(prev, w, COMMA);
            if i > 0 {
                assert(out@ =~= before + seq![COMMA] + w);
            }
        }
        i += 1;
    }
    assert(ts@.take(ts@.len() as int) =~= ts@);
}

/// A written list of TEXT values is valid UTF-8.
pub proof fn lemma_text_list_valid(ts: Seq<Text>)
    ensures
        valid_utf8(text_list_ical(ts)),
{
    let ws = ts.map_values(|t: Text| t.escaped());
    assert forall|i: int| 0 <= i < ws.len() implies valid_utf8(#[trigger] ws[i]) by {
        encode_utf8_valid_utf8(ts[i]@);
        lemma_escape_valid(ts[i].bytes());
    }
    crate::bytes::lemma_joined_valid(ws, COMMA);
}

// ---------------------------------------------------------------------
// BINARY (RFC 5545 §3.3.1): BASE64 (RFC 4648 §4).

pub const PAD: u8 = 61;

/// The BASE64 digit for `n`, `0 <= n < 64`.
pub open spec fn b64_char(n: int) -> u8 {
    if n < 26 {
        (UPPER_A + n) as u8
    } else if n < 52 {
        (LOWER_A + n - 26) as u8
    } else if n < 62 {
        (DIGIT_ZERO + n - 52) as u8
    } else if n == 62 {
        PLUS
    } else {
        SLASH
    }
}

/// The number a BASE64 digit stands for.
pub open spec fn b64_index(c: u8) -> Option<int> {
    if UPPER_A <= c <= UPPER_Z {
        Some(c - UPPER_A)
    } else if LOWER_A <= c <= LOWER_Z {
        Some(c - LOWER_A + 26)
    } else if DIGIT_ZERO <= c <= DIGIT_NINE {
        Some(c - DIGIT_ZERO + 52)
    } else if c == PLUS {
        Some(62)
    } else if c == SLASH {
        Some(63)
    } else {
        None
    }
}

/// BASE64 of `v`: each 3 bytes become 4 digits, and a short last group is
/// padded with `=`.
pub open spec fn b64_encode(v: Seq<u8>) -> Seq<u8>
    decreases v.len(),
{
    if v.len() == 0 {
        seq![]
    } else {
        let b0 = v[0] as int;
        if v.len() == 1 {
            seq![b64_char(b0 / 4), b64_char((b0 % 4) * 16), PAD, PAD]
        } else {
            let b1 = v[1] as int;
            if v.len() == 2 {
                seq![b64_char(b0 / 4), b64_char((b0 % 4) * 16 + b1 / 16), b64_char((b1 % 16) * 4), PAD]
            } else {
                let b2 = v[2] as int;
                seq![
                    b64_char(b0 / 4),
                    b64_char((b0 % 4) * 16 + b1 / 16),
                    b64_char((b1 % 16) * 4 + b2 / 64),
                    b64_char(b2 % 64),
                ] + b64_encode(v.skip(3))
            }
        }
    }
}

/// The bytes BASE64 text `v` stands for: groups of 4 digits, the last
/// possibly ending in one or two `=`; `None` when `v` isn't BASE64.
pub open spec fn b64_decode(v: Seq<u8>) -> Option<Seq<u8>>
    decreases v.len(),
{
    if v.len() == 0 {
        Some(seq![])
    } else if v.len() < 4 {
        None
    } else {
        match (b64_index(v[0]), b64_index(v[1])) {
            (Some(a), Some(b)) => {
                let x = (a * 4 + b / 16) as u8;
                if v.len() == 4 && v[2] == PAD && v[3] == PAD {
                    Some(seq![x])
                } else if v.len() == 4 && v[3] == PAD {
                    match b64_index(v[2]) {
                        Some(c) => Some(seq![x, ((b % 16) * 16 + c / 4) as u8]),
                        None => None,
                    }
                } else {
                    match (b64_index(v[2]), b64_index(v[3])) {
                        (Some(c), Some(d)) => match b64_decode(v.skip(4)) {
                            Some(rest) => Some(
                                seq![x, ((b % 16) * 16 + c / 4) as u8, ((c % 4) * 64 + d) as u8]
                                    + rest,
                            ),
                            None => None,
                        },
                        _ => None,
                    }
                }
            },
            _ => None,
        }
    }
}

proof fn lemma_b64_digit(n: int)
    requires
        0 <= n < 64,
    ensures
        b64_index(b64_char(n)) == Some(n),
        b64_char(n) != PAD,
        b64_char(n) < 128,
{
}

/// Decoding what encoding wrote gives back the bytes.
pub proof fn lemma_b64_round_trip(v: Seq<u8>)
    ensures
        b64_decode(b64_encode(v)) == Some(v),
    decreases v.len(),
{
    let e = b64_encode(v);
    if v.len() == 0 {
    } else if v.len() == 1 {
        lemma_b64_digit((v[0] as int) / 4);
        lemma_b64_digit(((v[0] as int) % 4) * 16);
        assert(v =~= seq![v[0]]);
    } else if v.len() == 2 {
        lemma_b64_digit((v[0] as int) / 4);
        lemma_b64_digit(((v[0] as int) % 4) * 16 + (v[1] as int) / 16);
        lemma_b64_digit(((v[1] as int) % 16) * 4);
        assert(v =~= seq![v[0], v[1]]);
    } else {
        let a = (v[0] as int) / 4;
        let b = ((v[0] as int) % 4) * 16 + (v[1] as int) / 16;
        let c = ((v[1] as int) % 16) * 4 + (v[2] as int) / 64;
        let d = (v[2] as int) % 64;
        lemma_b64_digit(a);
        lemma_b64_digit(b);
        lemma_b64_digit(c);
        lemma_b64_digit(d);
        lemma_b64_round_trip(v.skip(3));
        assert(e.skip(4) =~= b64_encode(v.skip(3)));
        lemma_b64_len(v.skip(3));
        assert(a * 4 + b / 16 == v[0]);
        assert((b % 16) * 16 + c / 4 == v[1]);
        assert((c % 4) * 64 + d == v[2]);
        assert(v =~= seq![v[0], v[1], v[2]] + v.skip(3));
    }
}

proof fn lemma_b64_len(v: Seq<u8>)
    ensures
        v.len() > 0 ==> b64_encode(v).len() >= 4,
        v.len() == 0 ==> b64_encode(v).len() == 0,
    decreases v.len(),
{
    if v.len() >= 3 {
        lemma_b64_len(v.skip(3));
    }
}

/// Encoding writes ASCII only.
pub proof fn lemma_b64_ascii(v: Seq<u8>)
    ensures
        forall|i: int| 0 <= i < b64_encode(v).len() ==> #[trigger] b64_encode(v)[i] < 128,
    decreases v.len(),
{
    if v.len() == 1 {
        lemma_b64_digit((v[0] as int) / 4);
        lemma_b64_digit(((v[0] as int) % 4) * 16);
    } else if v.len() == 2 {
        lemma_b64_digit((v[0] as int) / 4);
        lemma_b64_digit(((v[0] as int) % 4) * 16 + (v[1] as int) / 16);
        lemma_b64_digit(((v[1] as int) % 16) * 4);
    } else if v.len() >= 3 {
        lemma_b64_digit((v[0] as int) / 4);
        lemma_b64_digit(((v[0] as int) % 4) * 16 + (v[1] as int) / 16);
        lemma_b64_digit(((v[1] as int) % 16) * 4 + (v[2] as int) / 64);
        lemma_b64_digit((v[2] as int) % 64);
        lemma_b64_ascii(v.skip(3));
        let e = b64_encode(v);
        assert forall|i: int| 0 <= i < e.len() implies #[trigger] e[i] < 128 by {
            if i >= 4 {
                assert(e[i] == b64_encode(v.skip(3))[i - 4]);
            }
        }
    }
}

fn b64_digit(n: u8) -> (r: u8)
    requires
        n < 64,
    ensures
        r == b64_char(n as int),
{
    if n < 26 {
        UPPER_A + n
    } else if n < 52 {
        LOWER_A + n - 26
    } else if n < 62 {
        DIGIT_ZERO + n - 52
    } else if n == 62 {
        PLUS
    } else {
        SLASH
    }
}

fn b64_value(c: u8) -> (r: Option<u8>)
    ensures
        match b64_index(c) {
            Some(n) => r == Some(n as u8),
            None => r is None,
        },
{
    if UPPER_A <= c && c <= UPPER_Z {
        Some(c - UPPER_A)
    } else if LOWER_A <= c && c <= LOWER_Z {
        Some(c - LOWER_A + 26)
    } else if DIGIT_ZERO <= c && c <= DIGIT_NINE {
        Some(c - DIGIT_ZERO + 52)
    } else if c == PLUS {
        Some(62)
    } else if c == SLASH {
        Some(63)
    } else {
        None
    }
}

/// Appends the BASE64 of `v`.
pub fn write_base64(v: &[u8], out: &mut Vec<u8>)
    ensures
        final(out)@ == old(out)@ + b64_encode(v@),
{
    let mut i: usize = 0;
    assert(v@.skip(0) =~= v@);
    while i < v.len()
        invariant
            i <= v.len(),
            out@ + b64_encode(v@.skip(i as int)) == old(out)@ + b64_encode(v@),
        decreases v.len() - i,
    {
        let ghost rest = v@.skip(i as int);
        let ghost before = out@;
        let n = v.len() - i;
        let b0 = v[i];
        assert(rest[0] == b0);
        out.push(b64_digit(b0 / 4));
        if n == 1 {
            out.push(b64_digit((b0 % 4) * 16));
            out.push(PAD);
            out.push(PAD);
            assert(out@ =~= before + b64_encode(rest));
            i = v.len();
        } else {
            let b1 = v[i + 1];
            assert(rest[1] == b1);
            out.push(b64_digit((b0 % 4) * 16 + b1 / 16));
            if n == 2 {
                out.push(b64_digit((b1 % 16) * 4));
                out.push(PAD);
                assert(out@ =~= before + b64_encode(rest));
                i = v.len();
            } else {
                let b2 = v[i + 2];
                assert(rest[2] == b2);
                out.push(b64_digit((b1 % 16) * 4 + b2 / 64));
                out.push(b64_digit(b2 % 64));
                assert(rest.skip(3) =~= v@.skip(i + 3));
                assert(out@ + b64_encode(v@.skip(i + 3)) =~= before + b64_encode(rest));
                i = i + 3;
            }
        }
        assert(v@.skip(v.len() as int) =~= Seq::<u8>::empty());
    }
}

/// Decodes BASE64 text.
pub fn read_base64(v: &[u8]) -> (r: Option<Vec<u8>>)
    ensures
        match b64_decode(v@) {
            Some(d) => r matches Some(x) && x@ == d,
            None => r is None,
        },
{
    let mut out: Vec<u8> = Vec::new();
    let mut i: usize = 0;
    assert(v@.skip(0) =~= v@);
    while i < v.len()
        invariant
            i <= v.len(),
            b64_decode(v@) == match b64_decode(v@.skip(i as int)) {
                Some(d) => Some(out@ + d),
                None => None::<Seq<u8>>,
            },
        decreases v.len() - i,
    {
        let ghost rest = v@.skip(i as int);
        let n = v.len() - i;
        if n < 4 {
            return None;
        }
        assert(rest[0] == v@[i as int] && rest[1] == v@[i + 1] && rest[2] == v@[i + 2] && rest[3]
            == v@[i + 3]);
        let a = match b64_value(v[i]) {
            Some(a) => a,
            None => {
                return None;
            },
        };
        let b = match b64_value(v[i + 1]) {
            Some(b) => b,
            None => {
                return None;
            },
        };
        let x: u8 = a * 4 + b / 16;
        if n == 4 && v[i + 2] == PAD && v[i + 3] == PAD {
            let ghost before = out@;
            out.push(x);
            assert(out@ =~= before + seq![x]);
            assert(v@.skip(v.len() as int) =~= Seq::<u8>::empty());
            return Some(out);
        }
        if n == 4 && v[i + 3] == PAD {
            let c = match b64_value(v[i + 2]) {
                Some(c) => c,
                None => {
                    return None;
                },
            };
            let ghost before = out@;
            out.push(x);
            out.push((b % 16) * 16 + c / 4);
            assert(out@ =~= before + seq![x, ((b % 16) * 16 + c / 4) as u8]);
            return Some(out);
        }
        let c = match b64_value(v[i + 2]) {
            Some(c) => c,
            None => {
                return None;
            },
        };
        let d = match b64_value(v[i + 3]) {
            Some(d) => d,
            None => {
                return None;
            },
        };
        let ghost before = out@;
        out.push(x);
        out.push((b % 16) * 16 + c / 4);
        out.push((c % 4) * 64 + d);
        assert(rest.skip(4) =~= v@.skip(i + 4));
        proof {
            let three = seq![x, ((b % 16) * 16 + c / 4) as u8, ((c % 4) * 64 + d) as u8];
            assert(out@ =~= before + three);
            if let Some(t) = b64_decode(v@.skip(i + 4)) {
                assert(before + (three + t) =~= out@ + t);
            }
        }
        i = i + 4;
    }
    assert(v@.skip(v.len() as int) =~= Seq::<u8>::empty());
    Some(out)
}

/// A BINARY value, held decoded.
#[derive(Debug)]
pub struct Binary(Vec<u8>);

impl View for Binary {
    type V = Seq<u8>;

    closed spec fn view(&self) -> Seq<u8> {
        self.0@
    }
}

impl Binary {
    /// Whether `v` parses: it is BASE64.
    pub open spec fn parses(v: Seq<u8>) -> bool {
        b64_decode(v) is Some
    }

    /// Whether `b` is what `v` parses to: the bytes `v` encodes.
    pub open spec fn accepts(v: Seq<u8>, b: Binary) -> bool {
        b64_decode(v) == Some(b@)
    }

    /// Binary data.
    pub fn new(data: Vec<u8>) -> (r: Binary)
        ensures
            r@ == data@,
    {
        Binary(data)
    }

    /// Parses BASE64 text.
    pub fn try_from(v: &[u8]) -> (r: Result<Binary, ValueError>)
        ensures
            r is Ok <==> Binary::parses(v@),
            r matches Ok(b) ==> Binary::accepts(v@, b),
    {
        match read_base64(v) {
            Some(d) => Ok(Binary(d)),
            None => Err(malformed_value("BASE64 text", v)),
        }
    }

    /// The decoded bytes.
    pub fn as_slice(&self) -> (r: &[u8])
        ensures
            r@ == self@,
    {
        self.0.as_slice()
    }
}

impl Ical for Binary {
    /// Written as BASE64.
    open spec fn ical(&self) -> Seq<u8> {
        b64_encode(self@)
    }

    proof fn lemma_ical_valid(&self) {
        lemma_b64_ascii(self@);
        crate::bytes::lemma_ascii_seq_valid(self.ical());
    }

    fn write_to(&self, out: &mut Vec<u8>) {
        write_base64(self.0.as_slice(), out)
    }
}

// ---------------------------------------------------------------------
// Lists of values of one type.

/// A value type that can stand in a `,`-separated list.
pub trait ListValue: Ical + Sized {
    /// Whether `v` parses as one item.
    spec fn item_parses(v: Seq<u8>) -> bool;

    /// Whether `x` is the item `v` parses to.
    spec fn item_accepts(v: Seq<u8>, x: Self) -> bool;

    /// Parses one item.
    fn parse_item(v: &[u8]) -> (r: Result<Self, ValueError>)
        ensures
            r is Ok <==> Self::item_parses(v@),
            r matches Ok(x) ==> Self::item_accepts(v@, x),
    ;
}

/// Whether every piece of a list value parses as an item.
pub open spec fn list_parses<T: ListValue>(v: Seq<u8>) -> bool {
    forall|i: int|
        0 <= i < unescaped_pieces(v).len() ==> T::item_parses(#[trigger] unescaped_pieces(v)[i])
}

/// Whether `xs` is what a list value parses to, piece by piece.
pub open spec fn list_accepts<T: ListValue>(v: Seq<u8>, xs: Seq<T>) -> bool {
    xs.len() == unescaped_pieces(v).len() && forall|i: int|
        0 <= i < xs.len() ==> T::item_accepts(unescaped_pieces(v)[i], #[trigger] xs[i])
}

/// A list of values as written: `,` between them.
pub open spec fn list_ical<T: ListValue>(xs: Seq<T>) -> Seq<u8> {
    crate::bytes::joined(xs.map_values(|x: T| x.ical()), COMMA)
}

/// Parses a `,`-separated list of values.
pub fn parse_list<T: ListValue>(v: &[u8]) -> (r: Result<Vec<T>, ValueError>)
    ensures
        r is Ok <==> list_parses::<T>(v@),
        r matches Ok(xs) ==> list_accepts(v@, xs@),
{
    let ps = split_unescaped(v);
    let ghost all = unescaped_pieces(v@);
    let mut out: Vec<T> = Vec::new();
    let mut i: usize = 0;
    while i < ps.len()
        invariant
            i <= ps.len(),
            crate::bytes::vec_views(ps@) == all,
            all == unescaped_pieces(v@),
            out@.len() == i,
            forall|j: int| 0 <= j < i ==> T::item_parses(#[trigger] all[j]),
            forall|j: int| 0 <= j < i ==> T::item_accepts(all[j], #[trigger] out@[j]),
        decreases ps.len() - i,
    {
        assert(ps@[i as int]@ == all[i as int]);
        let x = T::parse_item(ps[i].as_slice())?;
        out.push(x);
        i += 1;
    }
    Ok(out)
}

/// Appends a list of values as written.
pub fn write_list<T: ListValue>(xs: &[T], out: &mut Vec<u8>)
    ensures
        final(out)@ == old(out)@ + list_ical(xs@),
{
    let mut i: usize = 0;
    assert(xs@.take(0).map_values(|x: T| x.ical()) =~= seq![]);
    while i < xs.len()
        invariant
            i <= xs@.len(),
            out@ == old(out)@ + crate::bytes::joined(
                xs@.take(i as int).map_values(|x: T| x.ical()),
                COMMA,
            ),
        decreases xs@.len() - i,
    {
        let ghost prev = xs@.take(i as int).map_values(|x: T| x.ical());
        let ghost before = out@;
        if i > 0 {
            out.push(COMMA);
        }
        xs[i].write_to(out);
        proof {
            let w = xs@[i as int].ical();
            assert(xs@.take(i + 1).map_values(|x: T| x.ical()) =~= prev.push(w));
            crate::bytes::lemma_joined_push(prev, w, COMMA);
            if i > 0 {
                assert(out@ =~= before + seq![COMMA] + w);
            }
        }
        i += 1;
    }
    assert(xs@.take(xs@.len() as int) =~= xs@);
}

/// A written list is valid UTF-8.
pub proof fn lemma_list_valid<T: ListValue>(xs: Seq<T>)
    ensures
        valid_utf8(list_ical(xs)),
{
    let ws = xs.map_values(|x: T| x.ical());
    assert forall|i: int| 0 <= i < ws.len() implies valid_utf8(#[trigger] ws[i]) by {
        xs[i].lemma_ical_valid();
    }
    crate::bytes::lemma_joined_valid(ws, COMMA);
}

} // verus!
