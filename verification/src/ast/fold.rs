//! Folding (RFC 6350 §3.2, RFC 5545 §3.1): lines longer than 75 octets are
//! split by a CRLF followed by a single space.

use vstd::prelude::*;
use vstd::string::StringSliceAdditionalSpecFns;
use crate::ast::unfold::{is_wsp, unfolded};
use crate::bytes::{CR, LF, SPACE};

verus! {

/// The longest a content line SHOULD be, in octets, excluding the line
/// break.
pub const MAX_OCTETS: usize = 75;

/// A UTF-8 continuation byte (`10xxxxxx`): a line cut just before one would
/// split a character.
pub open spec fn is_continuation(b: u8) -> bool {
    0x80 <= b < 0xC0
}

/// The last position at or before `c` that isn't inside a character, or 0.
pub open spec fn back_to_boundary(rest: Seq<u8>, c: int) -> int
    decreases c,
{
    if c <= 0 {
        0
    } else if c < rest.len() && is_continuation(rest[c]) {
        back_to_boundary(rest, c - 1)
    } else {
        c
    }
}

/// Where a line with `room` octets left is cut: on the last character
/// boundary that fits, or at `room` when there is none.
pub open spec fn cut_point(rest: Seq<u8>, room: int) -> int {
    let c = back_to_boundary(rest, room);
    if c == 0 {
        room
    } else {
        c
    }
}

/// `rest` written as folded lines, the first with `room` octets, each
/// later one with 74 after its leading space, every one ended by CRLF.
pub open spec fn folded_from(rest: Seq<u8>, room: int) -> Seq<u8>
    decreases rest.len(),
{
    if 0 < room < rest.len() {
        let c = cut_point(rest, room);
        if 0 < c <= rest.len() {
            rest.take(c) + seq![CR, LF, SPACE] + folded_from(rest.skip(c), MAX_OCTETS - 1)
        } else {
            rest + seq![CR, LF]
        }
    } else {
        rest + seq![CR, LF]
    }
}

/// `line` folded at 75 octets and ended by CRLF.
pub open spec fn folded(line: Seq<u8>) -> Seq<u8> {
    folded_from(line, MAX_OCTETS as int)
}

proof fn lemma_back_to_boundary(rest: Seq<u8>, c: int)
    ensures
        0 <= back_to_boundary(rest, c),
        c >= 0 ==> back_to_boundary(rest, c) <= c,
    decreases c,
{
    if c > 0 {
        lemma_back_to_boundary(rest, c - 1);
    }
}

/// Bytes without a line break pass through unfolding unchanged.
proof fn lemma_unfolded_plain_prefix(a: Seq<u8>, b: Seq<u8>)
    requires
        forall|k: int| 0 <= k < a.len() ==> #[trigger] a[k] != CR && a[k] != LF,
    ensures
        unfolded(a + b) == a + unfolded(b),
    decreases a.len(),
{
    if a.len() > 0 {
        let ab = a + b;
        assert(ab[0] == a[0]);
        assert(ab.skip(1) =~= a.skip(1) + b);
        lemma_unfolded_plain_prefix(a.skip(1), b);
        assert(a =~= seq![a[0]] + a.skip(1));
    } else {
        assert(a + b =~= b);
    }
}

/// Unfolding a folded line gives back the line and its CRLF.
pub proof fn lemma_unfold_folded(line: Seq<u8>, room: int)
    requires
        forall|k: int| 0 <= k < line.len() ==> #[trigger] line[k] != CR && line[k] != LF,
    ensures
        unfolded(folded_from(line, room)) == line + seq![CR, LF],
    decreases line.len(),
{
    let crlf = seq![CR, LF];
    assert(unfolded(crlf) == crlf) by {
        let lf = seq![LF];
        assert(lf.skip(1) =~= Seq::<u8>::empty());
        assert(unfolded(Seq::<u8>::empty()) == Seq::<u8>::empty());
        assert(unfolded(lf) =~= lf);
        assert(crlf.skip(1) =~= lf);
        assert(unfolded(crlf) =~= crlf);
    }
    if 0 < room < line.len() && 0 < cut_point(line, room) <= line.len() {
        let c = cut_point(line, room);
        let tail = line.skip(c);
        assert forall|k: int| 0 <= k < tail.len() implies #[trigger] tail[k] != CR && tail[k]
            != LF by {
            assert(tail[k] == line[k + c]);
        }
        lemma_unfold_folded(tail, MAX_OCTETS - 1);
        let brk = seq![CR, LF, SPACE];
        let rec = folded_from(tail, MAX_OCTETS - 1);
        assert forall|k: int| 0 <= k < line.take(c).len() implies #[trigger] line.take(c)[k] != CR
            && line.take(c)[k] != LF by {
            assert(line.take(c)[k] == line[k]);
        }
        assert(line.take(c) + brk + rec =~= line.take(c) + (brk + rec));
        lemma_unfolded_plain_prefix(line.take(c), brk + rec);
        assert((brk + rec).skip(3) =~= rec);
        assert(is_wsp((brk + rec)[2]));
        assert(line.take(c) + (tail + crlf) =~= line + crlf);
    } else {
        lemma_unfolded_plain_prefix(line, crlf);
    }
}

/// Writes `line` and its CRLF, folding it as RFC 6350 §3.2 describes.
///
/// A long line is split by inserting a CRLF immediately followed by a
/// single space, which unfolding removes again. The space counts toward the
/// 75 octets of the line it starts, so the first line holds 75 octets of
/// `line` and each continuation 74. A line is cut earlier, on a character
/// boundary, when 75 octets would end inside a UTF-8 sequence.
///
/// `line` must not contain a line break; the values of a property have them
/// escaped already.
pub fn write_folded(out: &mut Vec<u8>, line: &str)
    ensures
        final(out)@ == old(out)@ + folded(line.spec_bytes()),
{
    let bytes = line.as_bytes();
    let mut start: usize = 0;
    let mut room: usize = MAX_OCTETS;
    assert(bytes@.skip(0) =~= bytes@);
    while bytes.len() - start > room
        invariant
            start <= bytes.len(),
            room == MAX_OCTETS || room == MAX_OCTETS - 1,
            bytes@ == line.spec_bytes(),
            out@ + folded_from(bytes@.skip(start as int), room as int) == old(out)@ + folded(
                bytes@,
            ),
        decreases bytes.len() - start,
    {
        let ghost rest = bytes@.skip(start as int);
        let mut cut = room;
        proof {
            lemma_back_to_boundary(rest, room as int);
        }
        while cut > 0 && 0x80 <= bytes[start + cut] && bytes[start + cut] < 0xC0
            invariant
                0 <= cut <= room,
                start + room < bytes.len(),
                rest == bytes@.skip(start as int),
                back_to_boundary(rest, cut as int) == back_to_boundary(rest, room as int),
            decreases cut,
        {
            assert(rest[cut as int] == bytes@[start + cut]);
            cut -= 1;
        }
        proof {
            if cut > 0 {
                assert(rest[cut as int] == bytes@[start + cut]);
            }
        }
        if cut == 0 {
            cut = room;
        }
        assert(cut as int == cut_point(rest, room as int));
        crate::bytes::append(out, vstd::slice::slice_subrange(bytes, start, start + cut));
        out.push(CR);
        out.push(LF);
        out.push(SPACE);
        assert(rest.take(cut as int) =~= bytes@.subrange(start as int, start + cut));
        assert(rest.skip(cut as int) =~= bytes@.skip(start + cut));
        start = start + cut;
        room = MAX_OCTETS - 1;
    }
    crate::bytes::append(out, vstd::slice::slice_subrange(bytes, start, bytes.len()));
    out.push(CR);
    out.push(LF);
    assert(bytes@.subrange(start as int, bytes.len() as int) =~= bytes@.skip(start as int));
}

} // verus!
