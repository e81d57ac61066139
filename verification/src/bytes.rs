//! Byte-level helpers shared by the lexer, the parameter parser and the
//! value types: ASCII constants, quote- and escape-aware searching and
//! splitting, RFC 6868 caret decoding.

use vstd::prelude::*;
use vstd::string::StringSliceAdditionalSpecFns;

verus! {

pub const HTAB: u8 = 9;
pub const LF: u8 = 10;
pub const CR: u8 = 13;
pub const SPACE: u8 = 32;
pub const DQUOTE: u8 = 34;
pub const APOSTROPHE: u8 = 39;
pub const PLUS: u8 = 43;
pub const COMMA: u8 = 44;
pub const HYPHEN: u8 = 45;
pub const DOT: u8 = 46;
pub const SLASH: u8 = 47;
pub const DIGIT_ZERO: u8 = 48;
pub const DIGIT_NINE: u8 = 57;
pub const COLON: u8 = 58;
pub const SEMICOLON: u8 = 59;
pub const EQUALS: u8 = 61;
pub const UPPER_A: u8 = 65;
pub const UPPER_X: u8 = 88;
pub const UPPER_Z: u8 = 90;
pub const BACKSLASH: u8 = 92;
pub const CARET: u8 = 94;
pub const LOWER_A: u8 = 97;
pub const LOWER_N: u8 = 110;
pub const LOWER_X: u8 = 120;
pub const LOWER_Z: u8 = 122;
pub const UPPER_N: u8 = 78;

pub open spec fn is_lower(b: u8) -> bool {
    LOWER_A <= b <= LOWER_Z
}

pub open spec fn is_upper(b: u8) -> bool {
    UPPER_A <= b <= UPPER_Z
}

pub open spec fn is_alpha(b: u8) -> bool {
    is_lower(b) || is_upper(b)
}

pub open spec fn is_digit(b: u8) -> bool {
    DIGIT_ZERO <= b <= DIGIT_NINE
}

pub open spec fn is_alnum(b: u8) -> bool {
    is_alpha(b) || is_digit(b)
}

/// ASCII uppercase of one byte; every other byte is kept.
pub open spec fn upper_byte(b: u8) -> u8 {
    if is_lower(b) { (b - 32) as u8 } else { b }
}

pub open spec fn upper(v: Seq<u8>) -> Seq<u8> {
    v.map_values(|b: u8| upper_byte(b))
}

/// Whether `v` starts with `X-` or `x-`, the prefix of an `x-name`.
pub open spec fn has_x_prefix(v: Seq<u8>) -> bool {
    v.len() >= 2 && (v[0] == UPPER_X || v[0] == LOWER_X) && v[1] == HYPHEN
}

pub fn is_ascii_lower(b: u8) -> (r: bool)
    ensures r == is_lower(b),
{
    LOWER_A <= b && b <= LOWER_Z
}

pub fn is_ascii_alnum(b: u8) -> (r: bool)
    ensures r == is_alnum(b),
{
    (LOWER_A <= b && b <= LOWER_Z) || (UPPER_A <= b && b <= UPPER_Z) || (DIGIT_ZERO <= b && b
        <= DIGIT_NINE)
}

pub fn x_prefixed(v: &[u8]) -> (r: bool)
    ensures r == has_x_prefix(v@),
{
    v.len() >= 2 && (v[0] == UPPER_X || v[0] == LOWER_X) && v[1] == HYPHEN
}

/// The ASCII uppercase of `v`.
pub fn to_upper(v: &[u8]) -> (r: Vec<u8>)
    ensures r@ == upper(v@),
{
    let mut out: Vec<u8> = Vec::new();
    let mut i: usize = 0;
    while i < v.len()
        invariant
            i <= v.len(),
            out@ == upper(v@.take(i as int)),
        decreases v.len() - i,
    {
        let b = v[i];
        let u: u8 = if is_ascii_lower(b) { b - 32 } else { b };
        out.push(u);
        assert(v@.take(i + 1) == v@.take(i as int).push(b));
        i += 1;
    }
    assert(v@.take(v.len() as int) == v@);
    out
}

/// Whether `v` holds exactly the bytes of `s`.
pub fn eq_str(v: &[u8], s: &str) -> (r: bool)
    ensures r == (v@ == s.spec_bytes()),
{
    let b = s.as_bytes();
    if v.len() != b.len() {
        return false;
    }
    let mut i: usize = 0;
    while i < v.len()
        invariant
            i <= v.len(),
            v.len() == b@.len(),
            b@ == s.spec_bytes(),
            forall|j: int| 0 <= j < i ==> v@[j] == b@[j],
        decreases v.len() - i,
    {
        if v[i] != b[i] {
            return false;
        }
        i += 1;
    }
    assert(v@ =~= b@);
    true
}

/// Whether `a` and `b` hold the same bytes.
pub fn eq_bytes(a: &[u8], b: &[u8]) -> (r: bool)
    ensures r == (a@ == b@),
{
    if a.len() != b.len() {
        return false;
    }
    let mut i: usize = 0;
    while i < a.len()
        invariant
            i <= a.len(),
            a.len() == b.len(),
            forall|j: int| 0 <= j < i ==> a@[j] == b@[j],
        decreases a.len() - i,
    {
        if a[i] != b[i] {
            return false;
        }
        i += 1;
    }
    assert(a@ =~= b@);
    true
}

/// Copies `v[from..to]`.
pub fn copy_range(v: &[u8], from: usize, to: usize) -> (r: Vec<u8>)
    requires
        from <= to <= v.len(),
    ensures
        r@ == v@.subrange(from as int, to as int),
{
    let mut out: Vec<u8> = Vec::new();
    let mut i: usize = from;
    while i < to
        invariant
            from <= i <= to <= v.len(),
            out@ == v@.subrange(from as int, i as int),
        decreases to - i,
    {
        out.push(v[i]);
        assert(v@.subrange(from as int, i + 1) == v@.subrange(from as int, i as int).push(v@[i as int]));
        i += 1;
    }
    out
}

/// Appends `src` to `out`.
pub fn append(out: &mut Vec<u8>, src: &[u8])
    ensures
        final(out)@ == old(out)@ + src@,
{
    let mut i: usize = 0;
    while i < src.len()
        invariant
            i <= src.len(),
            out@ == old(out)@ + src@.take(i as int),
        decreases src.len() - i,
    {
        out.push(src[i]);
        assert(src@.take(i + 1) == src@.take(i as int).push(src@[i as int]));
        i += 1;
    }
    assert(src@.take(src.len() as int) == src@);
}

/// Appends the bytes of `s` to `out`.
pub fn append_str(out: &mut Vec<u8>, s: &str)
    ensures
        final(out)@ == old(out)@ + s.spec_bytes(),
{
    append(out, s.as_bytes());
}

// ---------------------------------------------------------------------
// Searching outside quoted-strings.

/// The first position at or after `i` holding `c` outside a DQUOTE-enclosed
/// run, where `inq` says whether position `i` starts inside quotes.
pub open spec fn scan_unquoted(v: Seq<u8>, c: u8, i: int, inq: bool) -> Option<int>
    decreases v.len() - i,
{
    if i < 0 || i >= v.len() {
        None
    } else if v[i] == DQUOTE {
        scan_unquoted(v, c, i + 1, !inq)
    } else if v[i] == c && !inq {
        Some(i)
    } else {
        scan_unquoted(v, c, i + 1, inq)
    }
}

/// The first `c` in `v` that is not inside a quoted-string.
pub open spec fn first_unquoted(v: Seq<u8>, c: u8) -> Option<int> {
    scan_unquoted(v, c, 0, false)
}

pub proof fn lemma_scan_unquoted_bounds(v: Seq<u8>, c: u8, i: int, inq: bool)
    ensures
        scan_unquoted(v, c, i, inq) matches Some(k) ==> i <= k < v.len() && v[k] == c,
    decreases v.len() - i,
{
    if 0 <= i < v.len() {
        lemma_scan_unquoted_bounds(v, c, i + 1, !inq);
        lemma_scan_unquoted_bounds(v, c, i + 1, inq);
    }
}

pub proof fn lemma_first_unquoted_bounds(v: Seq<u8>, c: u8)
    ensures
        first_unquoted(v, c) matches Some(k) ==> 0 <= k < v.len() && v[k] == c,
{
    lemma_scan_unquoted_bounds(v, c, 0, false);
}

/// Position of the first `c` in `v[from..]` outside quotes, counted from the
/// start of `v`.
pub fn find_unquoted_from(v: &[u8], c: u8, from: usize) -> (r: Option<usize>)
    requires
        from <= v.len(),
    ensures
        match first_unquoted(v@.skip(from as int), c) {
            Some(k) => r == Some((k + from) as usize),
            None => r is None,
        },
{
    let ghost w = v@.skip(from as int);
    let mut i: usize = from;
    let mut inq = false;
    while i < v.len()
        invariant
            from <= i <= v.len(),
            w == v@.skip(from as int),
            first_unquoted(w, c) == scan_unquoted(w, c, i - from, inq),
        decreases v.len() - i,
    {
        let b = v[i];
        assert(w[i - from] == b);
        if b == DQUOTE {
            inq = !inq;
        } else if b == c && !inq {
            proof { lemma_first_unquoted_bounds(w, c); }
            return Some(i);
        }
        i += 1;
    }
    None
}

/// Position of the first `c` in `v` outside a quoted-string.
pub fn find_unquoted(v: &[u8], c: u8) -> (r: Option<usize>)
    ensures
        match first_unquoted(v@, c) {
            Some(k) => r == Some(k as usize),
            None => r is None,
        },
{
    assert(v@.skip(0) == v@);
    find_unquoted_from(v, c, 0)
}

// ---------------------------------------------------------------------
// Plain searching.

/// The first position at or after `i` holding `c`.
pub open spec fn scan_byte(v: Seq<u8>, c: u8, i: int) -> Option<int>
    decreases v.len() - i,
{
    if i < 0 || i >= v.len() {
        None
    } else if v[i] == c {
        Some(i)
    } else {
        scan_byte(v, c, i + 1)
    }
}

/// The first `c` in `v`.
pub open spec fn first_byte(v: Seq<u8>, c: u8) -> Option<int> {
    scan_byte(v, c, 0)
}

pub proof fn lemma_scan_byte(v: Seq<u8>, c: u8, i: int)
    requires
        0 <= i,
    ensures
        match scan_byte(v, c, i) {
            Some(k) => i <= k < v.len() && v[k] == c && forall|j: int| i <= j < k ==> v[j] != c,
            None => forall|j: int| i <= j < v.len() ==> v[j] != c,
        },
    decreases v.len() - i,
{
    if i < v.len() {
        lemma_scan_byte(v, c, i + 1);
    }
}

/// Position of the first `c` in `v`.
pub fn find_byte(v: &[u8], c: u8) -> (r: Option<usize>)
    ensures
        r is None <==> first_byte(v@, c) is None,
        r matches Some(k) ==> k < v.len() && first_byte(v@, c) == Some(k as int),
{
    proof {
        lemma_scan_byte(v@, c, 0);
    }
    let mut i: usize = 0;
    while i < v.len()
        invariant
            i <= v.len(),
            first_byte(v@, c) == scan_byte(v@, c, i as int),
        decreases v.len() - i,
    {
        if v[i] == c {
            return Some(i);
        }
        i += 1;
    }
    None
}

/// Splits `v` around its first `c`.
pub fn split_once(v: &[u8], c: u8) -> (r: Option<(Vec<u8>, Vec<u8>)>)
    ensures
        match first_byte(v@, c) {
            Some(k) => r matches Some((a, b)) && a@ == v@.take(k) && b@ == v@.skip(k + 1),
            None => r is None,
        },
{
    proof {
        lemma_scan_byte(v@, c, 0);
    }
    match find_byte(v, c) {
        Some(k) => {
            let a = copy_range(v, 0, k);
            let b = copy_range(v, k + 1, v.len());
            assert(a@ =~= v@.take(k as int));
            assert(b@ =~= v@.skip(k + 1));
            Some((a, b))
        },
        None => None,
    }
}

// ---------------------------------------------------------------------
// Quoted-strings.

/// Whether `v` is DQUOTE-enclosed.
pub open spec fn is_quoted(v: Seq<u8>) -> bool {
    v.len() >= 2 && v[0] == DQUOTE && v[v.len() - 1] == DQUOTE
}

/// The inside of a DQUOTE-enclosed `v`.
pub open spec fn unquoted(v: Seq<u8>) -> Seq<u8> {
    v.subrange(1, v.len() - 1)
}

/// The inside of `v` when `v` is a quoted-string, `None` otherwise.
pub fn strip_quoted_string(v: &[u8]) -> (r: Option<Vec<u8>>)
    ensures
        r is Some <==> is_quoted(v@),
        r matches Some(inner) ==> inner@ == unquoted(v@),
{
    if v.len() >= 2 && v[0] == DQUOTE && v[v.len() - 1] == DQUOTE {
        Some(copy_range(v, 1, v.len() - 1))
    } else {
        None
    }
}

/// The inside of `v` when it is quoted, `v` itself otherwise.
pub open spec fn maybe_unquoted(v: Seq<u8>) -> Seq<u8> {
    if is_quoted(v) {
        unquoted(v)
    } else {
        v
    }
}

/// Strips the DQUOTE delimiters if `v` is quoted, otherwise returns `v`.
pub fn maybe_quoted(v: &[u8]) -> (r: Vec<u8>)
    ensures
        r@ == maybe_unquoted(v@),
{
    match strip_quoted_string(v) {
        Some(inner) => inner,
        None => copy_range(v, 0, v.len()),
    }
}

// ---------------------------------------------------------------------
// RFC 6868 caret encoding.

/// Whether `^` followed by `d` is one of RFC 6868's sequences.
pub open spec fn is_caret_escape(d: u8) -> bool {
    d == LOWER_N || d == APOSTROPHE || d == CARET
}

/// What `^` followed by `d` stands for: a line feed, a DQUOTE, a caret.
pub open spec fn caret_meaning(d: u8) -> u8 {
    if d == LOWER_N {
        LF
    } else if d == APOSTROPHE {
        DQUOTE
    } else {
        CARET
    }
}

/// `v` with `^n`, `^'` and `^^` decoded; any other `^` is left untouched,
/// as RFC 6868 §3.2 asks.
pub open spec fn caret_decoded(v: Seq<u8>) -> Seq<u8>
    decreases v.len(),
{
    if v.len() == 0 {
        seq![]
    } else if v[0] == CARET && v.len() >= 2 && is_caret_escape(v[1]) {
        seq![caret_meaning(v[1])] + caret_decoded(v.skip(2))
    } else {
        seq![v[0]] + caret_decoded(v.skip(1))
    }
}

/// Decodes RFC 6868 caret sequences in a parameter value.
pub fn decode_caret(v: &[u8]) -> (r: Vec<u8>)
    ensures
        r@ == caret_decoded(v@),
{
    let mut out: Vec<u8> = Vec::new();
    let mut i: usize = 0;
    assert(v@.skip(0) =~= v@);
    assert(out@ + caret_decoded(v@) =~= caret_decoded(v@));
    while i < v.len()
        invariant
            i <= v.len(),
            out@ + caret_decoded(v@.skip(i as int)) == caret_decoded(v@),
        decreases v.len() - i,
    {
        let ghost rest = v@.skip(i as int);
        let b = v[i];
        assert(rest[0] == b);
        if b == CARET && v.len() - i > 1 && (v[i + 1] == LOWER_N || v[i + 1] == APOSTROPHE || v[i
            + 1] == CARET) {
            let d = v[i + 1];
            assert(rest[1] == d);
            let m: u8 = if d == LOWER_N {
                LF
            } else if d == APOSTROPHE {
                DQUOTE
            } else {
                CARET
            };
            assert(rest.skip(2) =~= v@.skip(i + 2));
            let ghost before = out@;
            out.push(m);
            assert(out@ + caret_decoded(v@.skip(i + 2)) =~= before + (seq![m] + caret_decoded(
                v@.skip(i + 2),
            )));
            i += 2;
        } else {
            if v.len() - i > 1 {
                assert(rest[1] == v@[i + 1]);
            }
            assert(rest.skip(1) =~= v@.skip(i + 1));
            let ghost before = out@;
            out.push(b);
            assert(out@ + caret_decoded(v@.skip(i + 1)) =~= before + (seq![b] + caret_decoded(
                v@.skip(i + 1),
            )));
            i += 1;
        }
    }
    assert(v@.skip(v.len() as int) =~= Seq::<u8>::empty());
    assert(out@ + Seq::<u8>::empty() =~= out@);
    out
}

// ---------------------------------------------------------------------
// Splitting.

pub open spec fn nonempty(s: Seq<u8>) -> Seq<Seq<u8>> {
    if s.len() > 0 {
        seq![s]
    } else {
        seq![]
    }
}

/// The `;`-separated pieces of a parameter list, split outside
/// quoted-strings, with empty pieces dropped.
pub open spec fn param_pieces(v: Seq<u8>) -> Seq<Seq<u8>>
    decreases v.len(),
{
    match first_unquoted(v, SEMICOLON) {
        Some(i) => if 0 <= i < v.len() {
            nonempty(v.take(i)) + param_pieces(v.skip(i + 1))
        } else {
            seq![]
        },
        None => nonempty(v),
    }
}

pub open spec fn vec_views(vs: Seq<Vec<u8>>) -> Seq<Seq<u8>> {
    vs.map_values(|x: Vec<u8>| x@)
}

proof fn lemma_vec_views_push(vs: Seq<Vec<u8>>, x: Vec<u8>)
    ensures
        vec_views(vs.push(x)) == vec_views(vs) + seq![x@],
{
    assert(vec_views(vs.push(x)) =~= vec_views(vs) + seq![x@]);
}

/// Splits raw parameter bytes (e.g. `;FOO=BAR;X-BAZ="a;b"`) into its
/// `;`-separated `NAME=VALUE` segments, honoring DQUOTE-enclosed values and
/// dropping empty pieces.
pub fn param_segments(v: &[u8]) -> (r: Vec<Vec<u8>>)
    ensures
        vec_views(r@) == param_pieces(v@),
{
    let mut segs: Vec<Vec<u8>> = Vec::new();
    let mut start: usize = 0;
    assert(v@.skip(0) =~= v@);
    assert(vec_views(segs@) + param_pieces(v@) =~= param_pieces(v@));
    loop
        invariant
            start <= v.len(),
            vec_views(segs@) + param_pieces(v@.skip(start as int)) == param_pieces(v@),
        decreases v.len() - start,
    {
        let ghost rest = v@.skip(start as int);
        proof {
            lemma_first_unquoted_bounds(rest, SEMICOLON);
        }
        match find_unquoted_from(v, SEMICOLON, start) {
            Some(k) => {
                let piece = copy_range(v, start, k);
                assert(piece@ =~= rest.take(k - start));
                assert(rest.skip(k - start + 1) =~= v@.skip(k + 1));
                let ghost before = vec_views(segs@);
                if k > start {
                    proof {
                        lemma_vec_views_push(segs@, piece);
                    }
                    segs.push(piece);
                    assert(vec_views(segs@) + param_pieces(v@.skip(k + 1)) =~= before + (nonempty(
                        rest.take(k - start),
                    ) + param_pieces(rest.skip(k - start + 1))));
                } else {
                    assert(before + param_pieces(v@.skip(k + 1)) =~= before + (nonempty(
                        rest.take(k - start),
                    ) + param_pieces(rest.skip(k - start + 1))));
                }
                start = k + 1;
            },
            None => {
                let piece = copy_range(v, start, v.len());
                assert(piece@ =~= rest);
                if start < v.len() {
                    proof {
                        lemma_vec_views_push(segs@, piece);
                    }
                    segs.push(piece);
                } else {
                    assert(vec_views(segs@) + nonempty(rest) =~= vec_views(segs@));
                }
                return segs;
            },
        }
    }
}


/// The pieces of `v` between the occurrences of `c`, empty ones kept:
/// `a,,b` has three pieces and the empty input has one.
pub open spec fn pieces(v: Seq<u8>, c: u8) -> Seq<Seq<u8>>
    decreases v.len(),
{
    match first_byte(v, c) {
        Some(k) => if 0 <= k < v.len() {
            seq![v.take(k)] + pieces(v.skip(k + 1), c)
        } else {
            seq![]
        },
        None => seq![v],
    }
}

/// Position of the first `c` in `v` at or after `from`.
pub fn find_byte_from(v: &[u8], c: u8, from: usize) -> (r: Option<usize>)
    requires
        from <= v.len(),
    ensures
        r is None <==> first_byte(v@.skip(from as int), c) is None,
        r matches Some(k) ==> from <= k < v.len() && first_byte(v@.skip(from as int), c) == Some(
            k - from,
        ),
{
    let ghost rest = v@.skip(from as int);
    proof {
        lemma_scan_byte(rest, c, 0);
    }
    let mut i: usize = from;
    while i < v.len()
        invariant
            from <= i <= v.len(),
            rest == v@.skip(from as int),
            forall|j: int| from <= j < i ==> v@[j] != c,
        decreases v.len() - i,
    {
        if v[i] == c {
            proof {
                lemma_scan_byte(rest, c, 0);
                assert(rest[i - from] == c);
                assert forall|j: int| 0 <= j < i - from implies rest[j] != c by {
                    assert(rest[j] == v@[from + j]);
                }
            }
            return Some(i);
        }
        i += 1;
    }
    assert forall|j: int| 0 <= j < rest.len() implies rest[j] != c by {
        assert(rest[j] == v@[from + j]);
    }
    proof {
        lemma_scan_byte(rest, c, 0);
    }
    None
}

/// Splits `v` at every `c`, keeping empty pieces.
pub fn split_all(v: &[u8], c: u8) -> (r: Vec<Vec<u8>>)
    ensures
        vec_views(r@) == pieces(v@, c),
{
    let mut out: Vec<Vec<u8>> = Vec::new();
    let mut start: usize = 0;
    assert(v@.skip(0) =~= v@);
    assert(vec_views(out@) + pieces(v@, c) =~= pieces(v@, c));
    loop
        invariant
            start <= v.len(),
            vec_views(out@) + pieces(v@.skip(start as int), c) == pieces(v@, c),
        decreases v.len() - start,
    {
        let ghost rest = v@.skip(start as int);
        match find_byte_from(v, c, start) {
            Some(k) => {
                let piece = copy_range(v, start, k);
                assert(piece@ =~= rest.take(k - start));
                assert(rest.skip(k - start + 1) =~= v@.skip(k + 1));
                let ghost before = vec_views(out@);
                proof {
                    lemma_vec_views_push(out@, piece);
                }
                out.push(piece);
                assert(vec_views(out@) + pieces(v@.skip(k + 1), c) =~= before + (seq![
                    rest.take(k - start),
                ] + pieces(rest.skip(k - start + 1), c)));
                start = k + 1;
            },
            None => {
                let piece = copy_range(v, start, v.len());
                assert(piece@ =~= rest);
                proof {
                    lemma_vec_views_push(out@, piece);
                }
                out.push(piece);
                return out;
            },
        }
    }
}

/// Pieces joined back with `c` between them.
pub open spec fn joined(ps: Seq<Seq<u8>>, c: u8) -> Seq<u8>
    decreases ps.len(),
{
    if ps.len() == 0 {
        seq![]
    } else if ps.len() == 1 {
        ps[0]
    } else {
        joined(ps.drop_last(), c) + seq![c] + ps.last()
    }
}

/// `v` between DQUOTEs.
pub open spec fn quote(v: Seq<u8>) -> Seq<u8> {
    seq![DQUOTE] + v + seq![DQUOTE]
}

/// A single ASCII byte is valid UTF-8.
pub proof fn lemma_ascii_valid(b: u8)
    requires
        b < 128,
    ensures
        vstd::utf8::valid_utf8(seq![b]),
{
    let cs = seq![b as char];
    assert(vstd::utf8::is_ascii_chars(cs));
    vstd::utf8::is_ascii_chars_encode_utf8(cs);
    vstd::utf8::encode_utf8_valid_utf8(cs);
    assert(vstd::utf8::encode_utf8(cs) =~= seq![b]);
}

/// Quoting keeps UTF-8 valid.
pub proof fn lemma_quote_valid(v: Seq<u8>)
    requires
        vstd::utf8::valid_utf8(v),
    ensures
        vstd::utf8::valid_utf8(quote(v)),
{
    lemma_ascii_valid(DQUOTE);
    vstd::utf8::valid_utf8_concat(seq![DQUOTE], v);
    vstd::utf8::valid_utf8_concat(seq![DQUOTE] + v, seq![DQUOTE]);
}

/// Joining valid UTF-8 pieces with an ASCII separator keeps it valid.
pub proof fn lemma_joined_valid(ps: Seq<Seq<u8>>, c: u8)
    requires
        c < 128,
        forall|i: int| 0 <= i < ps.len() ==> vstd::utf8::valid_utf8(#[trigger] ps[i]),
    ensures
        vstd::utf8::valid_utf8(joined(ps, c)),
    decreases ps.len(),
{
    if ps.len() == 0 {
    } else if ps.len() == 1 {
    } else {
        lemma_joined_valid(ps.drop_last(), c);
        lemma_ascii_valid(c);
        vstd::utf8::valid_utf8_concat(joined(ps.drop_last(), c), seq![c]);
        vstd::utf8::valid_utf8_concat(joined(ps.drop_last(), c) + seq![c], ps.last());
    }
}

/// Joining one more piece.
pub proof fn lemma_joined_push(ps: Seq<Seq<u8>>, p: Seq<u8>, c: u8)
    ensures
        joined(ps.push(p), c) == if ps.len() == 0 {
            p
        } else {
            joined(ps, c) + seq![c] + p
        },
{
    assert(ps.push(p).drop_last() =~= ps);
}

/// Two different ASCII strings have different bytes.
pub proof fn lemma_str_bytes_differ(a: &str, b: &str, i: int)
    requires
        vstd::string::is_ascii(a),
        vstd::string::is_ascii(b),
        a@.len() != b@.len() || (0 <= i < a@.len() && i < b@.len() && a@[i] != b@[i]),
    ensures
        a.spec_bytes() != b.spec_bytes(),
{
    vstd::string::is_ascii_spec_bytes(a);
    vstd::string::is_ascii_spec_bytes(b);
    let sa = a.spec_bytes();
    let sb = b.spec_bytes();
    assert(sa =~= Seq::new(a@.len(), |i| a@.index(i) as u8));
    assert(sb =~= Seq::new(b@.len(), |i| b@.index(i) as u8));
    assert(sa.len() == a@.len());
    assert(sb.len() == b@.len());
    if a.spec_bytes() == b.spec_bytes() {
        assert(a@.len() == b@.len());
        assert forall|i: int| 0 <= i < a@.len() implies a@[i] == b@[i] by {
            assert(a.spec_bytes()[i] == b.spec_bytes()[i]);
            assert(a@[i] as u8 == b@[i] as u8);
        }
        assert(a@ =~= b@);
    }
}

/// Bytes that are all ASCII are valid UTF-8.
pub proof fn lemma_ascii_seq_valid(v: Seq<u8>)
    requires
        forall|i: int| 0 <= i < v.len() ==> #[trigger] v[i] < 128,
    ensures
        vstd::utf8::valid_utf8(v),
    decreases v.len(),
{
    if v.len() > 0 {
        lemma_ascii_seq_valid(v.skip(1));
        lemma_ascii_valid(v[0]);
        vstd::utf8::valid_utf8_concat(seq![v[0]], v.skip(1));
        assert(seq![v[0]] + v.skip(1) =~= v);
    }
}


/// Whether `v` holds no `c`.
pub open spec fn lacks(v: Seq<u8>, c: u8) -> bool {
    forall|i: int| 0 <= i < v.len() ==> v[i] != c
}

/// `c` and each of `qs`, in order: what follows the first of several
/// pieces joined with `c`.
pub open spec fn sep_tail(qs: Seq<Seq<u8>>, c: u8) -> Seq<u8>
    decreases qs.len(),
{
    if qs.len() == 0 {
        seq![]
    } else {
        seq![c] + qs[0] + sep_tail(qs.skip(1), c)
    }
}

/// Text with no `c` is one piece.
pub proof fn lemma_pieces_none(a: Seq<u8>, c: u8)
    requires
        lacks(a, c),
    ensures
        pieces(a, c) == seq![a],
{
    lemma_scan_byte(a, c, 0);
    if let Some(k) = first_byte(a, c) {
        assert(a[k] != c);
    }
}

/// Splitting at `c` cuts off the text before the first `c`.
pub proof fn lemma_pieces_first(a: Seq<u8>, b: Seq<u8>, c: u8)
    requires
        lacks(a, c),
    ensures
        pieces(a + seq![c] + b, c) == seq![a] + pieces(b, c),
{
    let v = a + seq![c] + b;
    lemma_scan_byte(v, c, 0);
    assert(v[a.len() as int] == c);
    match first_byte(v, c) {
        Some(k) => {
            if k < a.len() {
                assert(v[k] == a[k]);
            }
            assert(k == a.len());
        },
        None => {
            assert(false);
        },
    }
    assert(v.take(a.len() as int) =~= a);
    assert(v.skip(a.len() as int + 1) =~= b);
}

/// Pieces written with `c` between them are split back apart.
pub proof fn lemma_pieces_sep(p: Seq<u8>, qs: Seq<Seq<u8>>, c: u8)
    requires
        lacks(p, c),
        forall|i: int| 0 <= i < qs.len() ==> lacks(#[trigger] qs[i], c),
    ensures
        pieces(p + sep_tail(qs, c), c) == seq![p] + qs,
    decreases qs.len(),
{
    if qs.len() == 0 {
        lemma_pieces_none(p, c);
        assert(p + sep_tail(qs, c) =~= p);
        assert(seq![p] + qs =~= seq![p]);
    } else {
        let rest = qs[0] + sep_tail(qs.skip(1), c);
        assert(p + sep_tail(qs, c) =~= p + seq![c] + rest);
        lemma_pieces_first(p, rest, c);
        assert forall|i: int| 0 <= i < qs.skip(1).len() implies lacks(#[trigger] qs.skip(1)[i], c) by {
            assert(qs.skip(1)[i] == qs[i + 1]);
        }
        lemma_pieces_sep(qs[0], qs.skip(1), c);
        assert(seq![p] + (seq![qs[0]] + qs.skip(1)) =~= seq![p] + qs);
    }
}

/// One more piece at the end of a tail.
pub proof fn lemma_sep_tail_push(qs: Seq<Seq<u8>>, x: Seq<u8>, c: u8)
    ensures
        sep_tail(qs.push(x), c) == sep_tail(qs, c) + seq![c] + x,
    decreases qs.len(),
{
    if qs.len() == 0 {
        assert(qs.push(x).skip(1) =~= Seq::<Seq<u8>>::empty());
        assert(sep_tail(qs.push(x).skip(1), c) == Seq::<u8>::empty());
        assert(qs.push(x)[0] == x);
        assert(sep_tail(qs, c) == Seq::<u8>::empty());
        assert(sep_tail(qs.push(x), c) =~= seq![c] + x);
    } else {
        assert(qs.push(x).skip(1) =~= qs.skip(1).push(x));
        lemma_sep_tail_push(qs.skip(1), x, c);
        assert(sep_tail(qs.push(x), c) =~= sep_tail(qs, c) + seq![c] + x);
    }
}

/// Pieces joined with `c` are the first, then the tail of the rest.
pub proof fn lemma_joined_sep(ps: Seq<Seq<u8>>, c: u8)
    requires
        ps.len() > 0,
    ensures
        joined(ps, c) == ps[0] + sep_tail(ps.skip(1), c),
    decreases ps.len(),
{
    if ps.len() == 1 {
        assert(ps.skip(1) =~= Seq::<Seq<u8>>::empty());
        assert(joined(ps, c) =~= ps[0] + sep_tail(ps.skip(1), c));
    } else {
        lemma_joined_sep(ps.drop_last(), c);
        assert(ps.drop_last()[0] == ps[0]);
        assert(ps.skip(1) =~= ps.drop_last().skip(1).push(ps.last()));
        lemma_sep_tail_push(ps.drop_last().skip(1), ps.last(), c);
        assert(joined(ps, c) =~= ps[0] + sep_tail(ps.skip(1), c));
    }
}

/// Pieces with no `c` joined with `c` are split back apart.
pub proof fn lemma_pieces_joined(ps: Seq<Seq<u8>>, c: u8)
    requires
        ps.len() > 0,
        forall|i: int| 0 <= i < ps.len() ==> lacks(#[trigger] ps[i], c),
    ensures
        pieces(joined(ps, c), c) == ps,
{
    lemma_joined_sep(ps, c);
    assert forall|i: int| 0 <= i < ps.skip(1).len() implies lacks(#[trigger] ps.skip(1)[i], c) by {
        assert(ps.skip(1)[i] == ps[i + 1]);
    }
    assert(lacks(ps[0], c));
    lemma_pieces_sep(ps[0], ps.skip(1), c);
    assert(seq![ps[0]] + ps.skip(1) =~= ps);
}

} // verus!
