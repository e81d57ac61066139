//! FLOAT values (RFC 5545 §3.3.7), held exactly as decimal digits.

use vstd::prelude::*;
use crate::bytes::{copy_range, find_byte, first_byte, lemma_ascii_seq_valid, DIGIT_NINE, DIGIT_ZERO, DOT, HYPHEN, PLUS};
use crate::values::{all_digits, bytes_to_string, digits_value, is_digit_byte, malformed_value, Ical, ValueError};
use vstd::utf8::{encode_utf8, valid_utf8};

verus! {

/// The parts of FLOAT text: whether it is negative, the digits before the
/// point and those after it (none when there is no point).
pub open spec fn float_parts(v: Seq<u8>) -> Option<(bool, Seq<u8>, Seq<u8>)> {
    let has_sign = v.len() > 0 && (v[0] == PLUS || v[0] == HYPHEN);
    let neg = v.len() > 0 && v[0] == HYPHEN;
    let body = if has_sign {
        v.skip(1)
    } else {
        v
    };
    match first_byte(body, DOT) {
        Some(k) => {
            let ip = body.take(k);
            let fp = body.skip(k + 1);
            if ip.len() > 0 && fp.len() > 0 && all_digits(ip) && all_digits(fp) {
                Some((neg, ip, fp))
            } else {
                None
            }
        },
        None => if body.len() > 0 && all_digits(body) {
            Some((neg, body, seq![]))
        } else {
            None
        },
    }
}

/// `s` without its leading zeros.
pub open spec fn strip_leading_zeros(s: Seq<u8>) -> Seq<u8>
    decreases s.len(),
{
    if s.len() > 0 && s[0] == DIGIT_ZERO {
        strip_leading_zeros(s.skip(1))
    } else {
        s
    }
}

/// `s` without its trailing zeros.
pub open spec fn strip_trailing_zeros(s: Seq<u8>) -> Seq<u8>
    decreases s.len(),
{
    if s.len() > 0 && s.last() == DIGIT_ZERO {
        strip_trailing_zeros(s.drop_last())
    } else {
        s
    }
}

/// The number FLOAT text stands for, as its sign, the digits before the
/// point without leading zeros, and those after it without trailing zeros.
pub open spec fn float_of(v: Seq<u8>) -> Option<(bool, Seq<u8>, Seq<u8>)> {
    match float_parts(v) {
        Some((n, ip, fp)) => Some((n, strip_leading_zeros(ip), strip_trailing_zeros(fp))),
        None => None,
    }
}

/// How a number is written: `-` when negative, the whole digits (`0` when
/// there are none), and `.` and the fraction digits when there are any.
pub open spec fn float_text(f: (bool, Seq<u8>, Seq<u8>)) -> Seq<u8> {
    (if f.0 {
        seq![HYPHEN]
    } else {
        seq![]
    }) + (if f.1.len() == 0 {
        seq![DIGIT_ZERO]
    } else {
        f.1
    }) + (if f.2.len() == 0 {
        seq![]
    } else {
        seq![DOT] + f.2
    })
}

/// A FLOAT value, held exactly: its sign and its decimal digits.
#[derive(Debug)]
pub struct Float {
    negative: bool,
    whole: String,
    fraction: String,
}

impl Float {
    #[verifier::type_invariant]
    spec fn digits_only(self) -> bool {
        all_digits(encode_utf8(self.whole@)) && all_digits(encode_utf8(self.fraction@))
    }

    /// The sign, the digits before the point (no leading zero) and those
    /// after it (no trailing zero).
    pub closed spec fn spec_view(&self) -> (bool, Seq<u8>, Seq<u8>) {
        (self.negative, encode_utf8(self.whole@), encode_utf8(self.fraction@))
    }

    /// Whether `v` parses as FLOAT.
    pub open spec fn parses(v: Seq<u8>) -> bool {
        float_parts(v) is Some
    }

    /// Whether `f` is what `v` parses to.
    pub open spec fn accepts(v: Seq<u8>, f: Float) -> bool {
        float_of(v) == Some(f.spec_view())
    }

    /// Parses FLOAT text.
    pub fn try_from(v: &[u8]) -> (r: Result<Float, ValueError>)
        ensures
            r is Ok <==> Float::parses(v@),
            r matches Ok(f) ==> Float::accepts(v@, f),
    {
        let has_sign = v.len() > 0 && (v[0] == PLUS || v[0] == HYPHEN);
        let neg = v.len() > 0 && v[0] == HYPHEN;
        let start: usize = if has_sign {
            1
        } else {
            0
        };
        let body = copy_range(v, start, v.len());
        assert(v@.skip(0) =~= v@);
        assert(body@ =~= if has_sign {
            v@.skip(1)
        } else {
            v@
        });
        let (ip, fp) = match find_byte(body.as_slice(), DOT) {
            Some(k) => {
                let ip = copy_range(body.as_slice(), 0, k);
                let fp = copy_range(body.as_slice(), k + 1, body.len());
                assert(ip@ =~= body@.take(k as int));
                assert(fp@ =~= body@.skip(k + 1));
                if ip.len() == 0 || fp.len() == 0 || !all_digit_bytes(ip.as_slice())
                    || !all_digit_bytes(fp.as_slice()) {
                    return Err(malformed_value("a FLOAT", v));
                }
                (ip, fp)
            },
            None => {
                if body.len() == 0 || !all_digit_bytes(body.as_slice()) {
                    return Err(malformed_value("a FLOAT", v));
                }
                (body, Vec::new())
            },
        };
        let w = strip_leading(ip.as_slice());
        let f = strip_trailing(fp.as_slice());
        proof {
            lemma_stripped_digits(ip@, fp@);
            lemma_digits_valid(w@);
            lemma_digits_valid(f@);
        }
        Ok(Float { negative: neg, whole: bytes_to_string(w), fraction: bytes_to_string(f) })
    }

    /// Whether the magnitude is at most `90`.
    pub open spec fn within_90(f: (bool, Seq<u8>, Seq<u8>)) -> bool {
        digits_value(f.1) < 90 || (digits_value(f.1) == 90 && f.2.len() == 0)
    }

    /// Whether the magnitude is at most `90`.
    pub fn is_within_90(&self) -> (r: bool)
        ensures
            r == Float::within_90(self.spec_view()),
    {
        proof {
            use_type_invariant(self);
        }
        let w = capped_value(self.whole.as_str().as_bytes());
        w < 90 || (w == 90 && self.fraction.as_str().as_bytes().len() == 0)
    }
}

/// Whether every byte of `v` is a digit.
fn all_digit_bytes(v: &[u8]) -> (r: bool)
    ensures
        r == all_digits(v@),
{
    let mut i: usize = 0;
    while i < v.len()
        invariant
            i <= v.len(),
            forall|j: int| 0 <= j < i ==> is_digit_byte(#[trigger] v@[j]),
        decreases v.len() - i,
    {
        if !(DIGIT_ZERO <= v[i] && v[i] <= DIGIT_NINE) {
            return false;
        }
        i += 1;
    }
    true
}

/// The number the digits `v` spell, or `1000` when it is larger.
fn capped_value(v: &[u8]) -> (r: u32)
    requires
        all_digits(v@),
    ensures
        r == if digits_value(v@) < 1000 {
            digits_value(v@)
        } else {
            1000
        },
{
    let mut acc: u32 = 0;
    let mut i: usize = 0;
    while i < v.len()
        invariant
            i <= v.len(),
            all_digits(v@),
            acc == if digits_value(v@.take(i as int)) < 1000 {
                digits_value(v@.take(i as int))
            } else {
                1000
            },
        decreases v.len() - i,
    {
        assert(v@.take(i + 1).drop_last() =~= v@.take(i as int));
        assert(is_digit_byte(v@[i as int]));
        let d = (v[i] - DIGIT_ZERO) as u32;
        let next = acc * 10 + d;
        acc = if next < 1000 {
            next
        } else {
            1000
        };
        i += 1;
    }
    assert(v@.take(v.len() as int) =~= v@);
    acc
}

fn strip_leading(v: &[u8]) -> (r: Vec<u8>)
    ensures
        r@ == strip_leading_zeros(v@),
{
    let mut i: usize = 0;
    assert(v@.skip(0) =~= v@);
    while i < v.len() && v[i] == DIGIT_ZERO
        invariant
            i <= v.len(),
            strip_leading_zeros(v@.skip(i as int)) == strip_leading_zeros(v@),
        decreases v.len() - i,
    {
        assert(v@.skip(i as int).skip(1) =~= v@.skip(i + 1));
        i += 1;
    }
    let r = copy_range(v, i, v.len());
    assert(r@ =~= v@.skip(i as int));
    r
}

fn strip_trailing(v: &[u8]) -> (r: Vec<u8>)
    ensures
        r@ == strip_trailing_zeros(v@),
{
    let mut n: usize = v.len();
    assert(v@.take(v.len() as int) =~= v@);
    while n > 0 && v[n - 1] == DIGIT_ZERO
        invariant
            n <= v.len(),
            strip_trailing_zeros(v@.take(n as int)) == strip_trailing_zeros(v@),
        decreases n,
    {
        assert(v@.take(n as int).drop_last() =~= v@.take(n - 1));
        n -= 1;
    }
    let r = copy_range(v, 0, n);
    assert(r@ =~= v@.take(n as int));
    r
}

proof fn lemma_strip_leading_digits(s: Seq<u8>)
    requires
        all_digits(s),
    ensures
        all_digits(strip_leading_zeros(s)),
    decreases s.len(),
{
    if s.len() > 0 && s[0] == DIGIT_ZERO {
        assert forall|i: int| 0 <= i < s.skip(1).len() implies is_digit_byte(#[trigger] s.skip(1)[i]) by {
            assert(s.skip(1)[i] == s[i + 1]);
        }
        lemma_strip_leading_digits(s.skip(1));
    }
}

proof fn lemma_strip_trailing_digits(s: Seq<u8>)
    requires
        all_digits(s),
    ensures
        all_digits(strip_trailing_zeros(s)),
    decreases s.len(),
{
    if s.len() > 0 && s.last() == DIGIT_ZERO {
        assert forall|i: int| 0 <= i < s.drop_last().len() implies is_digit_byte(#[trigger] s.drop_last()[i]) by {
            assert(s.drop_last()[i] == s[i]);
        }
        lemma_strip_trailing_digits(s.drop_last());
    }
}

proof fn lemma_stripped_digits(ip: Seq<u8>, fp: Seq<u8>)
    requires
        all_digits(ip),
        all_digits(fp),
    ensures
        all_digits(strip_leading_zeros(ip)),
        all_digits(strip_trailing_zeros(fp)),
{
    lemma_strip_leading_digits(ip);
    lemma_strip_trailing_digits(fp);
}

proof fn lemma_digits_valid(s: Seq<u8>)
    requires
        all_digits(s),
    ensures
        valid_utf8(s),
{
    assert forall|i: int| 0 <= i < s.len() implies #[trigger] s[i] < 128 by {
        assert(is_digit_byte(s[i]));
    }
    lemma_ascii_seq_valid(s);
}

impl Ical for Float {
    open spec fn ical(&self) -> Seq<u8> {
        float_text(self.spec_view())
    }

    proof fn lemma_ical_valid(&self) {
        broadcast use vstd::utf8::encode_utf8_valid_utf8;

        let f = self.spec_view();
        let sign = if f.0 {
            seq![HYPHEN]
        } else {
            seq![]
        };
        let whole = if f.1.len() == 0 {
            seq![DIGIT_ZERO]
        } else {
            f.1
        };
        let frac = if f.2.len() == 0 {
            seq![]
        } else {
            seq![DOT] + f.2
        };
        lemma_ascii_seq_valid(seq![HYPHEN]);
        lemma_ascii_seq_valid(Seq::<u8>::empty());
        lemma_ascii_seq_valid(seq![DIGIT_ZERO]);
        lemma_ascii_seq_valid(seq![DOT]);
        vstd::utf8::valid_utf8_concat(seq![DOT], f.2);
        vstd::utf8::valid_utf8_concat(sign, whole);
        vstd::utf8::valid_utf8_concat(sign + whole, frac);
    }

    fn write_to(&self, out: &mut Vec<u8>) {
        if self.negative {
            out.push(HYPHEN);
        }
        let ghost a = out@;
        let whole = self.whole.as_str().as_bytes();
        let fraction = self.fraction.as_str().as_bytes();
        if whole.len() == 0 {
            out.push(DIGIT_ZERO);
        } else {
            crate::bytes::append(out, whole);
        }
        let ghost b = out@;
        if fraction.len() > 0 {
            out.push(DOT);
            crate::bytes::append(out, fraction);
        }
        assert(out@ =~= old(out)@ + self.ical());
    }
}

/// Two values of the same type, written `a;b`.
#[derive(Debug)]
pub struct Pair<T>(pub T, pub T);

impl<T> Pair<T> {
    /// The pair of `a` and `b`.
    pub fn new(a: T, b: T) -> (r: Pair<T>)
        ensures
            r.0 == a,
            r.1 == b,
    {
        Pair(a, b)
    }
}

} // verus!
