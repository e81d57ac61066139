//! UTC-OFFSET values (RFC 5545 §3.3.14): a signed offset from UTC, in
//! seconds.

use vstd::prelude::*;
use crate::bytes::{lemma_ascii_seq_valid, HYPHEN, PLUS};
use crate::values::{is_digit_byte, malformed_value, Ical, ValueError};
use crate::values::datetime::{
    digits_in, lemma_padded, lemma_padded_ascii, num, padded, pow10, read_number, write_padded,
};

verus! {

/// The seconds in a day; an offset is less than one day either way.
pub const SECONDS_PER_DAY: i32 = 86400;

/// The offset `v` spells: `+` or `-`, two digits of hours, two of minutes,
/// and optionally two of seconds; `-0000` and `-000000` are not allowed.
pub open spec fn offset_of(v: Seq<u8>) -> Option<int> {
    if (v.len() == 5 || v.len() == 7) && (v[0] == PLUS || v[0] == HYPHEN) && digits_in(
        v,
        1,
        v.len() as int,
    ) {
        let h = num(v, 1, 3);
        let m = num(v, 3, 5);
        let s = if v.len() == 7 {
            num(v, 5, 7)
        } else {
            0
        };
        let total = h * 3600 + m * 60 + s;
        if h > 23 || m > 59 || s > 59 || (v[0] == HYPHEN && total == 0) {
            None
        } else if v[0] == HYPHEN {
            Some(-total)
        } else {
            Some(total)
        }
    } else {
        None
    }
}

/// How an offset of `n` seconds is written: its sign (`+` for zero), hours
/// and minutes, and the seconds only when there are some.
pub open spec fn offset_text(n: int) -> Seq<u8> {
    let a: nat = if n < 0 {
        (-n) as nat
    } else {
        n as nat
    };
    let sign = if n < 0 {
        HYPHEN
    } else {
        PLUS
    };
    seq![sign] + padded(a / 3600, 2) + padded((a % 3600) / 60, 2) + if a % 60 == 0 {
        Seq::<u8>::empty()
    } else {
        padded(a % 60, 2)
    }
}

/// A UTC-OFFSET value.
#[derive(Debug, Clone, Copy, PartialEq, Eq, Structural)]
pub struct UtcOffset {
    seconds: i32,
}

impl UtcOffset {
    #[verifier::type_invariant]
    spec fn within_a_day(self) -> bool {
        -86400 < self.seconds < 86400
    }

    /// The offset, in seconds east of UTC.
    pub closed spec fn spec_seconds(&self) -> int {
        self.seconds as int
    }

    /// Whether `v` parses as a UTC offset.
    pub open spec fn parses(v: Seq<u8>) -> bool {
        offset_of(v) is Some
    }

    /// Whether `o` is what `v` parses to.
    pub open spec fn accepts(v: Seq<u8>, o: UtcOffset) -> bool {
        offset_of(v) == Some(o.spec_seconds())
    }

    /// The offset of `seconds` east of UTC, which is less than a day either
    /// way.
    pub fn new(seconds: i32) -> (r: UtcOffset)
        requires
            -86400 < seconds < 86400,
        ensures
            r.spec_seconds() == seconds,
    {
        UtcOffset { seconds }
    }

    /// The offset, in seconds east of UTC.
    pub fn seconds(&self) -> (r: i32)
        ensures
            r == self.spec_seconds(),
            -86400 < r < 86400,
    {
        proof {
            use_type_invariant(self);
        }
        self.seconds
    }

    /// Parses a UTC offset.
    pub fn try_from(v: &[u8]) -> (r: Result<UtcOffset, ValueError>)
        ensures
            r is Ok <==> UtcOffset::parses(v@),
            r matches Ok(o) ==> UtcOffset::accepts(v@, o),
    {
        let n = v.len();
        if !((n == 5 || n == 7) && (v[0] == PLUS || v[0] == HYPHEN)) {
            return Err(malformed_value("a UTC-OFFSET", v));
        }
        let mut i: usize = 1;
        while i < n
            invariant
                1 <= i <= n == v.len(),
                digits_in(v@, 1, i as int),
            decreases n - i,
        {
            if !(crate::bytes::DIGIT_ZERO <= v[i] && v[i] <= crate::bytes::DIGIT_NINE) {
                return Err(malformed_value("a UTC-OFFSET", v));
            }
            i += 1;
        }
        let h = read_number(v, 1, 3);
        let m = read_number(v, 3, 5);
        let s = if n == 7 {
            read_number(v, 5, 7)
        } else {
            0
        };
        let total = h * 3600 + m * 60 + s;
        if h > 23 || m > 59 || s > 59 || (v[0] == HYPHEN && total == 0) {
            return Err(malformed_value("a UTC-OFFSET", v));
        }
        let t = total as i32;
        if v[0] == HYPHEN {
            Ok(UtcOffset { seconds: -t })
        } else {
            Ok(UtcOffset { seconds: t })
        }
    }
}

impl Ical for UtcOffset {
    open spec fn ical(&self) -> Seq<u8> {
        offset_text(self.spec_seconds())
    }

    proof fn lemma_ical_valid(&self) {
        let n = self.spec_seconds();
        let a: nat = if n < 0 {
            (-n) as nat
        } else {
            n as nat
        };
        lemma_padded_ascii(a / 3600, 2);
        lemma_padded_ascii((a % 3600) / 60, 2);
        lemma_padded_ascii(a % 60, 2);
        let v = self.ical();
        let p = padded(a / 3600, 2);
        let q = padded((a % 3600) / 60, 2);
        let r = padded(a % 60, 2);
        assert forall|i: int| 0 <= i < v.len() implies #[trigger] v[i] < 128 by {
            if 1 <= i < 1 + p.len() {
                assert(v[i] == p[i - 1]);
            } else if 1 + p.len() <= i < 1 + p.len() + q.len() {
                assert(v[i] == q[i - 1 - p.len()]);
            } else if i >= 1 + p.len() + q.len() {
                assert(v[i] == r[i - 1 - p.len() - q.len()]);
            }
        }
        lemma_ascii_seq_valid(v);
    }

    fn write_to(&self, out: &mut Vec<u8>) {
        proof {
            use_type_invariant(self);
        }
        let a: u32 = if self.seconds < 0 {
            out.push(HYPHEN);
            (-self.seconds) as u32
        } else {
            out.push(PLUS);
            self.seconds as u32
        };
        write_padded(a / 3600, 2, out);
        write_padded((a % 3600) / 60, 2, out);
        if a % 60 != 0 {
            write_padded(a % 60, 2, out);
        }
        assert(out@ =~= old(out)@ + self.ical());
    }
}

/// Reading a written offset gives it back.
pub proof fn lemma_offset_round_trip(n: int)
    requires
        -86400 < n < 86400,
    ensures
        offset_of(offset_text(n)) == Some(n),
{
    reveal_with_fuel(pow10, 3);
    let a: nat = if n < 0 {
        (-n) as nat
    } else {
        n as nat
    };
    let v = offset_text(n);
    let h = a / 3600;
    let m = (a % 3600) / 60;
    let s = a % 60;
    lemma_padded(h, 2);
    lemma_padded(m, 2);
    lemma_padded(s, 2);
    let p = padded(h, 2);
    let q = padded(m, 2);
    let r = padded(s, 2);
    assert(v.subrange(1, 3) =~= p);
    assert(v.subrange(3, 5) =~= q);
    if s != 0 {
        assert(v.subrange(5, 7) =~= r);
    }
    assert forall|i: int| 1 <= i < v.len() implies is_digit_byte(#[trigger] v[i]) by {
        if i < 3 {
            assert(v[i] == p[i - 1]);
        } else if i < 5 {
            assert(v[i] == q[i - 3]);
        } else {
            assert(v[i] == r[i - 5]);
        }
    }
    assert(a == h * 3600 + m * 60 + s) by (nonlinear_arith)
        requires
            h == a / 3600,
            m == (a % 3600) / 60,
            s == a % 60,
    {
        assert(a == 3600 * h + a % 3600);
        assert(a % 3600 == 60 * m + (a % 3600) % 60);
        assert((a % 3600) % 60 == a % 60);
    }
}

} // verus!
