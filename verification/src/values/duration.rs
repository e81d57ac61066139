//! DURATION values (RFC 5545 §3.3.6), held as a number of seconds.

use vstd::prelude::*;
use crate::bytes::{lemma_ascii_seq_valid, DIGIT_NINE, DIGIT_ZERO, HYPHEN, PLUS};
use crate::values::{
    decimal, digits_value, is_digit_byte, lemma_decimal_digits, malformed_value, write_decimal,
    Ical, ListValue, ValueError,
};
use crate::values::datetime::{date_or_datetime_resolved, resolved, DateOrDatetime, DateTime, Date};
use crate::bytes::{copy_range, first_byte, lemma_scan_byte, find_byte, SLASH};

verus! {

pub const UPPER_P: u8 = 80;
pub const UPPER_T_BYTE: u8 = 84;
pub const UPPER_W: u8 = 87;
pub const UPPER_D: u8 = 68;
pub const UPPER_H: u8 = 72;
pub const UPPER_M: u8 = 77;
pub const UPPER_S: u8 = 83;

/// The most digits one component of a duration may have.
pub const MAX_DIGITS: usize = 18;

/// The position after the run of digits starting at `i`.
pub open spec fn digit_run(v: Seq<u8>, i: int) -> int
    decreases v.len() - i,
{
    if 0 <= i < v.len() && is_digit_byte(v[i]) {
        digit_run(v, i + 1)
    } else {
        i
    }
}

/// How many seconds one of unit `u` is, when `u` may follow the components
/// read so far (`stage`), and the stage after it: `W` only alone, `D`
/// first, then after `T` the time units `H`, `M`, `S` in that order.
pub open spec fn unit_step(stage: int, u: u8) -> Option<(int, int)> {
    if u == UPPER_W && stage == 0 {
        Some((604800, 5))
    } else if u == UPPER_D && stage == 0 {
        Some((86400, 1))
    } else if u == UPPER_H && stage == 2 {
        Some((3600, 3))
    } else if u == UPPER_M && (stage == 2 || stage == 3) {
        Some((60, 4))
    } else if u == UPPER_S && 2 <= stage <= 4 {
        Some((1, 5))
    } else {
        None
    }
}

/// The seconds the components of a duration from `v[i..]` add up to, in
/// the given stage: `T` opens the time components; a duration can't end
/// right after `P` or right after `T`.
pub open spec fn dur_from(v: Seq<u8>, i: int, stage: int) -> Option<int>
    decreases v.len() - i,
{
    if i < 0 || i >= v.len() {
        if stage == 0 || stage == 2 {
            None
        } else {
            Some(0)
        }
    } else if v[i] == UPPER_T_BYTE {
        if stage <= 1 {
            dur_from(v, i + 1, 2)
        } else {
            None
        }
    } else {
        let j = digit_run(v, i);
        if j <= i || j - i > MAX_DIGITS || j >= v.len() {
            None
        } else {
            match unit_step(stage, v[j]) {
                Some((mult, next)) => match dur_from(v, j + 1, next) {
                    Some(rest) => Some(digits_value(v.subrange(i, j)) * mult + rest),
                    None => None,
                },
                None => None,
            }
        }
    }
}

/// The seconds a duration value stands for: an optional sign, `P`, then
/// its components.
pub open spec fn dur_value(v: Seq<u8>) -> Option<int> {
    let neg = v.len() > 0 && v[0] == HYPHEN;
    let k: int = if v.len() > 0 && (v[0] == HYPHEN || v[0] == PLUS) {
        1
    } else {
        0
    };
    if k >= v.len() || v[k] != UPPER_P {
        None
    } else {
        match dur_from(v, k + 1, 0) {
            Some(n) => Some(if neg {
                -n
            } else {
                n
            }),
            None => None,
        }
    }
}

/// The magnitude of `n`.
pub open spec fn magnitude(n: int) -> nat {
    if n < 0 {
        (-n) as nat
    } else {
        n as nat
    }
}

/// `x` followed by the unit `u`, when `x` isn't zero.
pub open spec fn unit_part(x: nat, u: u8) -> Seq<u8> {
    if x > 0 {
        decimal(x) + seq![u]
    } else {
        seq![]
    }
}

/// The time components of `a` seconds, after `T`; `T0S` when there is no
/// time and no day either.
pub open spec fn time_part(a: nat) -> Seq<u8> {
    let r = a % 86400;
    if r > 0 {
        seq![UPPER_T_BYTE] + unit_part(r / 3600, UPPER_H) + unit_part((r % 3600) / 60, UPPER_M)
            + unit_part(r % 60, UPPER_S)
    } else if a / 86400 == 0 {
        seq![UPPER_T_BYTE, DIGIT_ZERO, UPPER_S]
    } else {
        seq![]
    }
}

/// How a duration of `n` seconds is written: days, then hours, minutes and
/// seconds after `T`, each only when it isn't zero; no time at all is
/// `PT0S`.
pub open spec fn dur_text(n: int) -> Seq<u8> {
    (if n < 0 {
        seq![HYPHEN]
    } else {
        seq![]
    }) + seq![UPPER_P] + unit_part(magnitude(n) / 86400, UPPER_D) + time_part(magnitude(n))
}

fn write_unit(x: u64, u: u8, out: &mut Vec<u8>)
    ensures
        final(out)@ == old(out)@ + unit_part(x as nat, u),
{
    if x > 0 {
        write_decimal(x, out);
        out.push(u);
    }
}

fn write_time(a: u64, out: &mut Vec<u8>)
    ensures
        final(out)@ == old(out)@ + time_part(a as nat),
{
    let r = a % 86400;
    if r > 0 {
        out.push(UPPER_T_BYTE);
        write_unit(r / 3600, UPPER_H, out);
        write_unit((r % 3600) / 60, UPPER_M, out);
        write_unit(r % 60, UPPER_S, out);
        assert(out@ =~= old(out)@ + time_part(a as nat));
    } else if a / 86400 == 0 {
        out.push(UPPER_T_BYTE);
        out.push(DIGIT_ZERO);
        out.push(UPPER_S);
        assert(out@ =~= old(out)@ + time_part(a as nat));
    }
}

/// A DURATION value: a signed number of seconds.
#[derive(Debug, Clone, Copy, PartialEq, Eq, Structural)]
pub struct Duration {
    seconds: i64,
}

impl Duration {
    #[verifier::type_invariant]
    spec fn has_a_magnitude(self) -> bool {
        self.seconds > i64::MIN
    }

    /// The number of seconds.
    pub closed spec fn spec_seconds(&self) -> int {
        self.seconds as int
    }

    /// Whether `v` parses: a duration whose seconds fit in 64 bits.
    pub open spec fn parses(v: Seq<u8>) -> bool {
        dur_value(v) matches Some(n) && i64::MIN < n <= i64::MAX
    }

    /// Whether `d` is what `v` parses to.
    pub open spec fn accepts(v: Seq<u8>, d: Duration) -> bool {
        dur_value(v) == Some(d.spec_seconds())
    }

    /// A duration of `seconds` seconds; `i64::MIN` has no magnitude and is
    /// taken as `-i64::MAX`.
    pub fn new(seconds: i64) -> (r: Duration)
        ensures
            r.spec_seconds() == if seconds == i64::MIN {
                -i64::MAX
            } else {
                seconds as int
            },
    {
        if seconds == i64::MIN {
            Duration { seconds: -i64::MAX }
        } else {
            Duration { seconds }
        }
    }

    /// The number of seconds.
    pub fn seconds(&self) -> (r: i64)
        ensures
            r == self.spec_seconds(),
    {
        self.seconds
    }

    /// Parses a duration.
    pub fn try_from(v: &[u8]) -> (r: Result<Duration, ValueError>)
        ensures
            r is Ok <==> Duration::parses(v@),
            r matches Ok(d) ==> Duration::accepts(v@, d),
    {
        let neg = v.len() > 0 && v[0] == HYPHEN;
        let k: usize = if v.len() > 0 && (v[0] == HYPHEN || v[0] == PLUS) {
            1
        } else {
            0
        };
        if k >= v.len() || v[k] != UPPER_P {
            return Err(malformed_value("a DURATION", v));
        }
        let total = match components(v, k + 1) {
            Some(t) => t,
            None => {
                return Err(malformed_value("a DURATION", v));
            },
        };
        if total > i64::MAX as u128 {
            return Err(malformed_value("a DURATION that fits in 64 bits", v));
        }
        let t = total as i64;
        if neg {
            Ok(Duration { seconds: -t })
        } else {
            Ok(Duration { seconds: t })
        }
    }
}

/// Reads the components of a duration from `v[start..]`.
fn components(v: &[u8], start: usize) -> (r: Option<u128>)
    requires
        start <= v.len(),
    ensures
        match dur_from(v@, start as int, 0) {
            Some(n) => r == Some(n as u128) && 0 <= n <= 5 * 604800 * 1_000_000_000_000_000_000,
            None => r is None,
        },
{
    let mut i: usize = start;
    let mut stage: u8 = 0;
    let mut acc: u128 = 0;
    loop
        invariant
            start <= i <= v.len(),
            stage <= 5,
            acc <= (stage as int) * 604800 * 1_000_000_000_000_000_000,
            dur_from(v@, start as int, 0) == match dur_from(v@, i as int, stage as int) {
                Some(rest) => Some(acc + rest),
                None => None::<int>,
            },
        decreases v.len() - i,
    {
        if i >= v.len() {
            if stage == 0 || stage == 2 {
                return None;
            }
            return Some(acc);
        }
        if v[i] == UPPER_T_BYTE {
            if stage <= 1 {
                stage = 2;
                i += 1;
                continue;
            } else {
                return None;
            }
        }
        let mut j: usize = i;
        let mut n: u64 = 0;
        while j < v.len() && DIGIT_ZERO <= v[j] && v[j] <= DIGIT_NINE && j - i < MAX_DIGITS
            invariant
                i <= j <= v.len(),
                j - i <= MAX_DIGITS,
                forall|x: int| i <= x < j ==> is_digit_byte(#[trigger] v@[x]),
                digit_run(v@, i as int) == digit_run(v@, j as int),
                n as int == digits_value(v@.subrange(i as int, j as int)),
                n < pow10_int((j - i) as nat),
            decreases v.len() - j,
        {
            assert(v@.subrange(i as int, j + 1).drop_last() =~= v@.subrange(i as int, j as int));
            assert(pow10_int((j + 1 - i) as nat) == 10 * pow10_int((j - i) as nat));
            assert(pow10_int((j - i) as nat) <= 100_000_000_000_000_000) by {
                lemma_pow10_mono((j - i) as nat, 17);
                reveal_with_fuel(pow10_int, 18);
            }
            n = n * 10 + ((v[j] - DIGIT_ZERO) as u64);
            j += 1;
        }
        if j < v.len() && DIGIT_ZERO <= v[j] && v[j] <= DIGIT_NINE {
            proof {
                lemma_run_longer(v@, i as int, j as int);
            }
            return None;
        }
        assert(digit_run(v@, j as int) == j);
        if j <= i || j >= v.len() {
            return None;
        }
        let u = v[j];
        let (mult, next): (u128, u8) = if u == UPPER_W && stage == 0 {
            (604800, 5)
        } else if u == UPPER_D && stage == 0 {
            (86400, 1)
        } else if u == UPPER_H && stage == 2 {
            (3600, 3)
        } else if u == UPPER_M && (stage == 2 || stage == 3) {
            (60, 4)
        } else if u == UPPER_S && 2 <= stage && stage <= 4 {
            (1, 5)
        } else {
            return None;
        };
        assert(pow10_int((j - i) as nat) <= 1_000_000_000_000_000_000) by {
            lemma_pow10_mono((j - i) as nat, 18);
            reveal_with_fuel(pow10_int, 19);
        }
        assert((n as int) * (mult as int) <= 1_000_000_000_000_000_000 * 604800) by (nonlinear_arith)
            requires
                n < 1_000_000_000_000_000_000,
                mult <= 604800,
        ;
        acc = acc + (n as u128) * mult;
        stage = next;
        i = j + 1;
    }
}

pub open spec fn pow10_int(w: nat) -> int
    decreases w,
{
    if w == 0 {
        1
    } else {
        10 * pow10_int((w - 1) as nat)
    }
}

proof fn lemma_pow10_mono(a: nat, b: nat)
    requires
        a <= b,
    ensures
        pow10_int(a) <= pow10_int(b),
        pow10_int(a) >= 1,
    decreases b,
{
    if a < b {
        lemma_pow10_mono(a, (b - 1) as nat);
    } else if a > 0 {
        lemma_pow10_mono((a - 1) as nat, (a - 1) as nat);
    }
}

/// A run that goes on past `j` is longer than `j - i`.
proof fn lemma_run_longer(v: Seq<u8>, i: int, j: int)
    requires
        0 <= i <= j < v.len(),
        is_digit_byte(v[j]),
        digit_run(v, i) == digit_run(v, j),
    ensures
        digit_run(v, i) > j,
{
    lemma_run_at_least(v, j);
}

proof fn lemma_run_at_least(v: Seq<u8>, j: int)
    requires
        0 <= j < v.len(),
        is_digit_byte(v[j]),
    ensures
        digit_run(v, j) > j,
    decreases v.len() - j,
{
    assert(digit_run(v, j) == digit_run(v, j + 1));
    if j + 1 < v.len() && is_digit_byte(v[j + 1]) {
        lemma_run_at_least(v, j + 1);
    } else {
        assert(digit_run(v, j + 1) == j + 1);
    }
}

impl Ical for Duration {
    open spec fn ical(&self) -> Seq<u8> {
        dur_text(self.spec_seconds())
    }

    proof fn lemma_ical_valid(&self) {
        let n = self.spec_seconds();
        let a = magnitude(n);
        lemma_decimal_digits(a / 86400);
        lemma_decimal_digits((a % 86400) / 3600);
        lemma_decimal_digits(((a % 86400) % 3600) / 60);
        lemma_decimal_digits((a % 86400) % 60);
        let v = self.ical();
        assert forall|i: int| 0 <= i < v.len() implies #[trigger] v[i] < 128 by {
            lemma_dur_text_ascii(n, i);
        }
        lemma_ascii_seq_valid(v);
    }

    fn write_to(&self, out: &mut Vec<u8>) {
        proof {
            use_type_invariant(self);
        }
        let a: u64 = if self.seconds < 0 {
            out.push(HYPHEN);
            (-self.seconds) as u64
        } else {
            self.seconds as u64
        };
        out.push(UPPER_P);
        write_unit(a / 86400, UPPER_D, out);
        write_time(a, out);
        assert(out@ =~= old(out)@ + dur_text(self.spec_seconds()));
    }
}

/// Every byte of a written duration is ASCII.
proof fn lemma_dur_text_ascii(n: int, i: int)
    requires
        0 <= i < dur_text(n).len(),
    ensures
        dur_text(n)[i] < 128,
{
    let a = magnitude(n);
    lemma_decimal_digits(a / 86400);
    lemma_decimal_digits((a % 86400) / 3600);
    lemma_decimal_digits(((a % 86400) % 3600) / 60);
    lemma_decimal_digits((a % 86400) % 60);
    let v = dur_text(n);
    assert forall|x: nat, k: int| 0 <= k < decimal(x).len() implies #[trigger] decimal(x)[k] < 128 by {
        lemma_decimal_digits(x);
        assert(is_digit_byte(decimal(x)[k]));
    }
}

// ---------------------------------------------------------------------
// Writing a duration and reading it back.

/// The run of digits from `i` ends at the first byte that isn't one.
proof fn lemma_digit_run_ends(v: Seq<u8>, i: int, j: int)
    requires
        0 <= i <= j < v.len(),
        forall|k: int| i <= k < j ==> is_digit_byte(#[trigger] v[k]),
        !is_digit_byte(v[j]),
    ensures
        digit_run(v, i) == j,
    decreases j - i,
{
    if i < j {
        lemma_digit_run_ends(v, i + 1, j);
    }
}

/// A number below `10^w` has at most `w` digits.
proof fn lemma_decimal_short(x: nat, w: nat)
    requires
        w >= 1,
        x < pow10_int(w),
    ensures
        decimal(x).len() <= w,
    decreases x,
{
    if x >= 10 {
        assert(w >= 2) by {
            if w == 1 {
                assert(pow10_int(1) == 10 * pow10_int(0));
            }
        }
        assert(pow10_int(w) == 10 * pow10_int((w - 1) as nat));
        lemma_decimal_short(x / 10, (w - 1) as nat);
    }
}

/// A component `x` written with unit `u` at `i` adds `x` units to what
/// follows it.
proof fn lemma_component(v: Seq<u8>, i: int, x: nat, u: u8, stage: int)
    requires
        0 <= i,
        i + decimal(x).len() < v.len(),
        v.subrange(i, i + decimal(x).len() + 1) == decimal(x).push(u),
        !is_digit_byte(u),
        x < 1_000_000_000_000_000_000,
        unit_step(stage, u) is Some,
    ensures
        dur_from(v, i, stage) == match dur_from(
            v,
            i + decimal(x).len() + 1,
            unit_step(stage, u).unwrap().1,
        ) {
            Some(rest) => Some(x * unit_step(stage, u).unwrap().0 + rest),
            None => None,
        },
{
    let d = decimal(x);
    let j = i + d.len();
    lemma_decimal_digits(x);
    assert forall|k: int| i <= k < j implies is_digit_byte(#[trigger] v[k]) by {
        assert(v.subrange(i, j + 1)[k - i] == d[k - i]);
    }
    assert(v[j] == v.subrange(i, j + 1)[j - i]);
    lemma_digit_run_ends(v, i, j);
    assert(pow10_int(18) == 1_000_000_000_000_000_000) by {
        reveal_with_fuel(pow10_int, 19);
    }
    lemma_decimal_short(x, 18);
    assert(v.subrange(i, j) =~= d);
    assert(is_digit_byte(v[i]));
}

/// The time components written for `r` seconds of a day read back as
/// `r`, right after `T`.
proof fn lemma_time_round_trip(v: Seq<u8>, i: int, r: nat)
    requires
        0 < r < 86400,
        0 <= i <= v.len(),
        v.subrange(i, v.len() as int) == unit_part(r / 3600, UPPER_H) + unit_part(
            (r % 3600) / 60,
            UPPER_M,
        ) + unit_part(r % 60, UPPER_S),
    ensures
        dur_from(v, i, 2) == Some(r as int),
{
    let h = r / 3600;
    let m = (r % 3600) / 60;
    let s = r % 60;
    let hp = unit_part(h, UPPER_H);
    let mp = unit_part(m, UPPER_M);
    let sp = unit_part(s, UPPER_S);
    let i1 = i + hp.len();
    let i2 = i1 + mp.len();
    let end = v.len() as int;
    assert(end == i2 + sp.len()) by {
        assert(v.subrange(i, end).len() == end - i);
    }
    assert(r == h * 3600 + m * 60 + s) by (nonlinear_arith)
        requires
            h == r / 3600,
            m == (r % 3600) / 60,
            s == r % 60,
    {
        assert(r == 3600 * h + r % 3600);
        assert(r % 3600 == 60 * m + (r % 3600) % 60);
        assert((r % 3600) % 60 == r % 60);
    }
    let tail = v.subrange(i, end);
    if s > 0 {
        assert(v.subrange(i2, i2 + decimal(s).len() + 1) =~= decimal(s).push(UPPER_S)) by {
            assert forall|k: int| 0 <= k < decimal(s).len() + 1 implies v.subrange(
                i2,
                i2 + decimal(s).len() + 1,
            )[k] == #[trigger] decimal(s).push(UPPER_S)[k] by {
                assert(v[i2 + k] == tail[i2 + k - i]);
            }
        }
        lemma_component(v, i2, s, UPPER_S, 2);
        lemma_component(v, i2, s, UPPER_S, 3);
        lemma_component(v, i2, s, UPPER_S, 4);
    }
    assert(dur_from(v, i2, 3) == Some(s as int));
    assert(dur_from(v, i2, 4) == Some(s as int));
    if m > 0 {
        assert(v.subrange(i1, i1 + decimal(m).len() + 1) =~= decimal(m).push(UPPER_M)) by {
            assert forall|k: int| 0 <= k < decimal(m).len() + 1 implies v.subrange(
                i1,
                i1 + decimal(m).len() + 1,
            )[k] == #[trigger] decimal(m).push(UPPER_M)[k] by {
                assert(v[i1 + k] == tail[i1 + k - i]);
            }
        }
        lemma_component(v, i1, m, UPPER_M, 2);
        lemma_component(v, i1, m, UPPER_M, 3);
    }
    assert(dur_from(v, i1, 3) == Some((m * 60 + s) as int));
    if h > 0 {
        assert(v.subrange(i, i + decimal(h).len() + 1) =~= decimal(h).push(UPPER_H)) by {
            assert forall|k: int| 0 <= k < decimal(h).len() + 1 implies v.subrange(
                i,
                i + decimal(h).len() + 1,
            )[k] == #[trigger] decimal(h).push(UPPER_H)[k] by {
                assert(v[i + k] == tail[k]);
            }
        }
        lemma_component(v, i, h, UPPER_H, 2);
    } else {
        assert(dur_from(v, i1, 2) == Some((m * 60 + s) as int));
    }
}

/// What `time_part(a)` holds reads back as the seconds of `a` past whole
/// days, after the days (stage 1) or with none (stage 0).
proof fn lemma_time_part_round_trip(v: Seq<u8>, p: int, a: nat)
    requires
        0 <= p <= v.len(),
        v.subrange(p, v.len() as int) == time_part(a),
    ensures
        dur_from(v, p, if a / 86400 > 0 { 1 } else { 0 }) == Some((a % 86400) as int),
{
    let r = a % 86400;
    let tp = time_part(a);
    let st: int = if a / 86400 > 0 {
        1
    } else {
        0
    };
    assert(v.len() == p + tp.len()) by {
        assert(v.subrange(p, v.len() as int).len() == v.len() - p);
    }
    if r > 0 {
        assert(v[p] == v.subrange(p, v.len() as int)[0]);
        assert(v[p] == UPPER_T_BYTE);
        let rest = unit_part(r / 3600, UPPER_H) + unit_part((r % 3600) / 60, UPPER_M) + unit_part(
            r % 60,
            UPPER_S,
        );
        assert(tp =~= seq![UPPER_T_BYTE] + rest);
        assert(v.subrange(p + 1, v.len() as int) =~= rest) by {
            assert forall|k: int| 0 <= k < rest.len() implies v.subrange(p + 1, v.len() as int)[k]
                == #[trigger] rest[k] by {
                assert(v.subrange(p, v.len() as int)[k + 1] == tp[k + 1]);
            }
        }
        lemma_time_round_trip(v, p + 1, r);
    } else if a / 86400 == 0 {
        assert(decimal(0) =~= seq![DIGIT_ZERO]);
        assert(tp =~= seq![UPPER_T_BYTE, DIGIT_ZERO, UPPER_S]);
        assert(v[p] == v.subrange(p, v.len() as int)[0]);
        assert(v.subrange(p + 1, p + 3) =~= decimal(0).push(UPPER_S)) by {
            assert(v[p + 1] == v.subrange(p, v.len() as int)[1]);
            assert(v[p + 2] == v.subrange(p, v.len() as int)[2]);
        }
        lemma_component(v, p + 1, 0, UPPER_S, 2);
        assert(dur_from(v, p + 3, 5) == Some(0int));
    } else {
        assert(tp.len() == 0);
        assert(dur_from(v, p, st) == Some(0int));
    }
}

/// The components written for `a` seconds read back as `a`.
proof fn lemma_components_round_trip(v: Seq<u8>, p: int, a: nat)
    requires
        0 <= p <= v.len(),
        a <= i64::MAX,
        v.subrange(p, v.len() as int) == unit_part(a / 86400, UPPER_D) + time_part(a),
    ensures
        dur_from(v, p, 0) == Some(a as int),
{
    let dd = a / 86400;
    let dp = unit_part(dd, UPPER_D);
    let tp = time_part(a);
    let p1 = p + dp.len();
    let whole = v.subrange(p, v.len() as int);
    assert(v.len() == p1 + tp.len()) by {
        assert(whole.len() == v.len() - p);
    }
    assert(v.subrange(p1, v.len() as int) =~= tp) by {
        assert forall|k: int| 0 <= k < tp.len() implies v.subrange(p1, v.len() as int)[k]
            == #[trigger] tp[k] by {
            assert(whole[dp.len() + k] == tp[k]);
        }
    }
    lemma_time_part_round_trip(v, p1, a);
    assert(a == dd * 86400 + a % 86400);
    if dd > 0 {
        assert(v.subrange(p, p + decimal(dd).len() + 1) =~= decimal(dd).push(UPPER_D)) by {
            assert forall|k: int| 0 <= k < decimal(dd).len() + 1 implies v.subrange(
                p,
                p + decimal(dd).len() + 1,
            )[k] == #[trigger] decimal(dd).push(UPPER_D)[k] by {
                assert(whole[k] == dp[k]);
            }
        }
        lemma_component(v, p, dd, UPPER_D, 0);
    }
}

/// Reading a written duration gives its seconds back.
pub proof fn lemma_duration_round_trip(n: int)
    requires
        i64::MIN < n <= i64::MAX,
    ensures
        dur_value(dur_text(n)) == Some(n),
{
    let a = magnitude(n);
    let v = dur_text(n);
    let k: int = if n < 0 {
        1
    } else {
        0
    };
    let body = unit_part(a / 86400, UPPER_D) + time_part(a);
    assert(v =~= (if n < 0 {
        seq![HYPHEN]
    } else {
        seq![]
    }) + seq![UPPER_P] + body);
    assert(v.subrange(k + 1, v.len() as int) =~= body);
    lemma_components_round_trip(v, k + 1, a);
    assert(v[k] == UPPER_P);
    if n >= 0 {
        assert(v[0] == UPPER_P);
    } else {
        assert(v[0] == HYPHEN);
    }
}

// ---------------------------------------------------------------------
// DATE-TIME or DURATION, as a TRIGGER holds.

/// A trigger's value: a duration relative to the component, or an
/// absolute date-time.
#[derive(Debug, Clone, Copy, PartialEq, Eq, Structural)]
pub enum DateTimeDuration {
    /// An absolute date-time.
    DateTime(DateTime),
    /// A duration relative to the component's start or end.
    Duration(Duration),
}

impl DateTimeDuration {
    /// Whether `v` parses: as a DATE-TIME, or else as a DURATION.
    pub open spec fn parses(v: Seq<u8>) -> bool {
        DateTime::parses(v) || Duration::parses(v)
    }

    /// Whether `x` is what `v` parses to.
    pub open spec fn accepts(v: Seq<u8>, x: DateTimeDuration) -> bool {
        if DateTime::parses(v) {
            x matches DateTimeDuration::DateTime(d) && DateTime::accepts(v, d)
        } else {
            x matches DateTimeDuration::Duration(d) && Duration::accepts(v, d)
        }
    }

    /// Parses a DATE-TIME, or else a DURATION.
    pub fn try_from(v: &[u8]) -> (r: Result<DateTimeDuration, ValueError>)
        ensures
            r is Ok <==> DateTimeDuration::parses(v@),
            r matches Ok(x) ==> DateTimeDuration::accepts(v@, x),
    {
        match DateTime::try_from(v) {
            Ok(d) => Ok(DateTimeDuration::DateTime(d)),
            Err(_) => Ok(DateTimeDuration::Duration(Duration::try_from(v)?)),
        }
    }
}

impl Ical for DateTimeDuration {
    open spec fn ical(&self) -> Seq<u8> {
        match self {
            DateTimeDuration::DateTime(d) => d.ical(),
            DateTimeDuration::Duration(d) => d.ical(),
        }
    }

    proof fn lemma_ical_valid(&self) {
        match self {
            DateTimeDuration::DateTime(d) => d.lemma_ical_valid(),
            DateTimeDuration::Duration(d) => d.lemma_ical_valid(),
        }
    }

    fn write_to(&self, out: &mut Vec<u8>) {
        match self {
            DateTimeDuration::DateTime(d) => d.write_to(out),
            DateTimeDuration::Duration(d) => d.write_to(out),
        }
    }
}

// ---------------------------------------------------------------------
// PERIOD (RFC 5545 §3.3.9).

/// A period of time: a start and an end, or a start and a duration.
#[derive(Debug, Clone, Copy, PartialEq, Eq, Structural)]
pub enum Period {
    /// From `start` to `end`.
    StartEnd {
        /// Where the period starts.
        start: DateTime,
        /// Where it ends.
        end: DateTime,
    },
    /// From `start`, for `duration`.
    Duration {
        /// Where the period starts.
        start: DateTime,
        /// How long it lasts.
        duration: Duration,
    },
}

impl Period {
    /// Whether `v` parses: a DATE-TIME, `/`, then a DATE-TIME or a
    /// DURATION.
    pub open spec fn parses(v: Seq<u8>) -> bool {
        match first_byte(v, SLASH) {
            Some(k) => DateTime::parses(v.take(k)) && (DateTime::parses(v.skip(k + 1))
                || Duration::parses(v.skip(k + 1))),
            None => false,
        }
    }

    /// Whether `p` is what `v` parses to.
    pub open spec fn accepts(v: Seq<u8>, p: Period) -> bool {
        match first_byte(v, SLASH) {
            Some(k) => if DateTime::parses(v.skip(k + 1)) {
                p matches Period::StartEnd { start, end } && DateTime::accepts(v.take(k), start)
                    && DateTime::accepts(v.skip(k + 1), end)
            } else {
                p matches Period::Duration { start, duration } && DateTime::accepts(v.take(k), start)
                    && Duration::accepts(v.skip(k + 1), duration)
            },
            None => false,
        }
    }

    /// Parses a period.
    pub fn try_from(v: &[u8]) -> (r: Result<Period, ValueError>)
        ensures
            r is Ok <==> Period::parses(v@),
            r matches Ok(p) ==> Period::accepts(v@, p),
    {
        proof {
            lemma_scan_byte(v@, SLASH, 0);
        }
        let k = match find_byte(v, SLASH) {
            Some(k) => k,
            None => {
                return Err(malformed_value("a PERIOD (start/end or start/duration)", v));
            },
        };
        let head = copy_range(v, 0, k);
        let tail = copy_range(v, k + 1, v.len());
        assert(head@ =~= v@.take(k as int));
        assert(tail@ =~= v@.skip(k + 1));
        let start = DateTime::try_from(head.as_slice())?;
        match DateTime::try_from(tail.as_slice()) {
            Ok(end) => Ok(Period::StartEnd { start, end }),
            Err(_) => {
                let duration = Duration::try_from(tail.as_slice())?;
                Ok(Period::Duration { start, duration })
            },
        }
    }
}

impl Ical for Period {
    /// Written `start/end` or `start/duration`.
    open spec fn ical(&self) -> Seq<u8> {
        match self {
            Period::StartEnd { start, end } => start.ical() + seq![SLASH] + end.ical(),
            Period::Duration { start, duration } => start.ical() + seq![SLASH] + duration.ical(),
        }
    }

    proof fn lemma_ical_valid(&self) {
        crate::bytes::lemma_ascii_valid(SLASH);
        match self {
            Period::StartEnd { start, end } => {
                start.lemma_ical_valid();
                end.lemma_ical_valid();
                vstd::utf8::valid_utf8_concat(start.ical(), seq![SLASH]);
                vstd::utf8::valid_utf8_concat(start.ical() + seq![SLASH], end.ical());
            },
            Period::Duration { start, duration } => {
                start.lemma_ical_valid();
                duration.lemma_ical_valid();
                vstd::utf8::valid_utf8_concat(start.ical(), seq![SLASH]);
                vstd::utf8::valid_utf8_concat(start.ical() + seq![SLASH], duration.ical());
            },
        }
    }

    fn write_to(&self, out: &mut Vec<u8>) {
        match self {
            Period::StartEnd { start, end } => {
                start.write_to(out);
                out.push(SLASH);
                end.write_to(out);
            },
            Period::Duration { start, duration } => {
                start.write_to(out);
                out.push(SLASH);
                duration.write_to(out);
            },
        }
        assert(out@ =~= old(out)@ + self.ical());
    }
}

/// A value that may be a DATE, a DATE-TIME or a PERIOD, as `RDATE` holds.
#[derive(Debug, Clone, Copy, PartialEq, Eq, Structural)]
pub enum DateTimePeriod {
    /// A date.
    Date(Date),
    /// A date and time.
    DateTime(DateTime),
    /// A period.
    Period(Period),
}

impl DateTimePeriod {
    /// Whether `v` parses: a DATE, a DATE-TIME, or a PERIOD.
    pub open spec fn parses(v: Seq<u8>) -> bool {
        Date::parses(v) || DateTime::parses(v) || Period::parses(v)
    }

    /// Whether `x` is what `v` parses to.
    pub open spec fn accepts(v: Seq<u8>, x: DateTimePeriod) -> bool {
        if Date::parses(v) {
            x matches DateTimePeriod::Date(d) && Date::accepts(v, d)
        } else if DateTime::parses(v) {
            x matches DateTimePeriod::DateTime(d) && DateTime::accepts(v, d)
        } else {
            x matches DateTimePeriod::Period(p) && Period::accepts(v, p)
        }
    }

    /// Parses a DATE, else a DATE-TIME, else a PERIOD.
    pub fn try_from(v: &[u8]) -> (r: Result<DateTimePeriod, ValueError>)
        ensures
            r is Ok <==> DateTimePeriod::parses(v@),
            r matches Ok(x) ==> DateTimePeriod::accepts(v@, x),
    {
        if let Ok(d) = Date::try_from(v) {
            return Ok(DateTimePeriod::Date(d));
        }
        if let Ok(d) = DateTime::try_from(v) {
            return Ok(DateTimePeriod::DateTime(d));
        }
        Ok(DateTimePeriod::Period(Period::try_from(v)?))
    }
}

impl Ical for DateTimePeriod {
    open spec fn ical(&self) -> Seq<u8> {
        match self {
            DateTimePeriod::Date(d) => d.ical(),
            DateTimePeriod::DateTime(d) => d.ical(),
            DateTimePeriod::Period(p) => p.ical(),
        }
    }

    proof fn lemma_ical_valid(&self) {
        match self {
            DateTimePeriod::Date(d) => d.lemma_ical_valid(),
            DateTimePeriod::DateTime(d) => d.lemma_ical_valid(),
            DateTimePeriod::Period(p) => p.lemma_ical_valid(),
        }
    }

    fn write_to(&self, out: &mut Vec<u8>) {
        match self {
            DateTimePeriod::Date(d) => d.write_to(out),
            DateTimePeriod::DateTime(d) => d.write_to(out),
            DateTimePeriod::Period(p) => p.write_to(out),
        }
    }
}

impl ListValue for Period {
    open spec fn item_parses(v: Seq<u8>) -> bool {
        Period::parses(v)
    }

    open spec fn item_accepts(v: Seq<u8>, x: Period) -> bool {
        Period::accepts(v, x)
    }

    fn parse_item(v: &[u8]) -> (r: Result<Period, ValueError>) {
        Period::try_from(v)
    }
}

impl ListValue for DateTimePeriod {
    open spec fn item_parses(v: Seq<u8>) -> bool {
        DateTimePeriod::parses(v)
    }

    open spec fn item_accepts(v: Seq<u8>, x: DateTimePeriod) -> bool {
        DateTimePeriod::accepts(v, x)
    }

    fn parse_item(v: &[u8]) -> (r: Result<DateTimePeriod, ValueError>) {
        DateTimePeriod::try_from(v)
    }
}

impl ListValue for DateOrDatetime {
    open spec fn item_parses(v: Seq<u8>) -> bool {
        DateOrDatetime::parses(v)
    }

    open spec fn item_accepts(v: Seq<u8>, x: DateOrDatetime) -> bool {
        DateOrDatetime::accepts(v, x)
    }

    fn parse_item(v: &[u8]) -> (r: Result<DateOrDatetime, ValueError>) {
        DateOrDatetime::try_from(v)
    }
}

// ---------------------------------------------------------------------
// Reading values in a time zone.

/// The zone a `TZID` view names, as the lookups take it.
pub open spec fn zone_view(tz: Option<&str>) -> Option<Seq<char>> {
    match tz {
        Some(t) => Some(t@),
        None => None,
    }
}

/// A value whose floating date-times can be read in a time zone.
pub trait Zoned: Sized {
    /// The value with its floating date-times read in the zone `tz`.
    spec fn zoned(self, tz: Option<Seq<char>>) -> Self;

    /// Reads the value's floating date-times in the zone `tz` names.
    fn in_zone(&self, tz: Option<&str>) -> (r: Self)
        ensures
            r == self.zoned(zone_view(tz)),
    ;
}

impl Zoned for DateOrDatetime {
    open spec fn zoned(self, tz: Option<Seq<char>>) -> DateOrDatetime {
        date_or_datetime_resolved(self, tz)
    }

    fn in_zone(&self, tz: Option<&str>) -> (r: DateOrDatetime) {
        self.resolve_tz(tz)
    }
}

impl Zoned for DateTimeDuration {
    open spec fn zoned(self, tz: Option<Seq<char>>) -> DateTimeDuration {
        match self {
            DateTimeDuration::DateTime(d) => DateTimeDuration::DateTime(resolved(d, tz)),
            DateTimeDuration::Duration(d) => DateTimeDuration::Duration(d),
        }
    }

    fn in_zone(&self, tz: Option<&str>) -> (r: DateTimeDuration) {
        match self {
            DateTimeDuration::DateTime(d) => DateTimeDuration::DateTime(d.resolve_tz(tz)),
            DateTimeDuration::Duration(d) => DateTimeDuration::Duration(*d),
        }
    }
}

impl Zoned for Period {
    open spec fn zoned(self, tz: Option<Seq<char>>) -> Period {
        match self {
            Period::StartEnd { start, end } => Period::StartEnd {
                start: resolved(start, tz),
                end: resolved(end, tz),
            },
            Period::Duration { start, duration } => Period::Duration {
                start: resolved(start, tz),
                duration,
            },
        }
    }

    fn in_zone(&self, tz: Option<&str>) -> (r: Period) {
        match self {
            Period::StartEnd { start, end } => Period::StartEnd {
                start: start.resolve_tz(tz),
                end: end.resolve_tz(tz),
            },
            Period::Duration { start, duration } => Period::Duration {
                start: start.resolve_tz(tz),
                duration: *duration,
            },
        }
    }
}

impl Zoned for DateTimePeriod {
    open spec fn zoned(self, tz: Option<Seq<char>>) -> DateTimePeriod {
        match self {
            DateTimePeriod::Date(d) => DateTimePeriod::Date(d),
            DateTimePeriod::DateTime(d) => DateTimePeriod::DateTime(resolved(d, tz)),
            DateTimePeriod::Period(p) => DateTimePeriod::Period(p.zoned(tz)),
        }
    }

    fn in_zone(&self, tz: Option<&str>) -> (r: DateTimePeriod) {
        match self {
            DateTimePeriod::Date(d) => DateTimePeriod::Date(*d),
            DateTimePeriod::DateTime(d) => DateTimePeriod::DateTime(d.resolve_tz(tz)),
            DateTimePeriod::Period(p) => DateTimePeriod::Period(p.in_zone(tz)),
        }
    }
}

/// Each value read in the zone `tz`.
pub open spec fn all_zoned<T: Zoned>(xs: Seq<T>, tz: Option<Seq<char>>) -> Seq<T> {
    xs.map_values(|x: T| x.zoned(tz))
}

/// Reads every value in the zone `tz` names.
pub fn in_zone_all<T: Zoned>(xs: &[T], tz: Option<&str>) -> (r: Vec<T>)
    ensures
        r@ == all_zoned(xs@, zone_view(tz)),
{
    let mut out: Vec<T> = Vec::new();
    let mut i: usize = 0;
    while i < xs.len()
        invariant
            i <= xs@.len(),
            out@ == all_zoned(xs@.take(i as int), zone_view(tz)),
        decreases xs@.len() - i,
    {
        let z = xs[i].in_zone(tz);
        out.push(z);
        assert(all_zoned(xs@.take(i + 1), zone_view(tz)) =~= all_zoned(
            xs@.take(i as int),
            zone_view(tz),
        ).push(z));
        i += 1;
    }
    assert(xs@.take(xs@.len() as int) =~= xs@);
    out
}

} // verus!
