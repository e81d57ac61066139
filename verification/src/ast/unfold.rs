//! Unfolding (RFC 5545 §3.1): a line break followed by a single SPACE or
//! HTAB continues the previous line.

use vstd::prelude::*;
use crate::bytes::{CR, HTAB, LF, SPACE};

verus! {

pub open spec fn is_wsp(b: u8) -> bool {
    b == SPACE || b == HTAB
}

/// `v` with every folding point removed: CRLF (or a bare LF) followed by
/// one SPACE or HTAB is dropped, line break and blank together.
pub open spec fn unfolded(v: Seq<u8>) -> Seq<u8>
    decreases v.len(),
{
    if v.len() == 0 {
        seq![]
    } else if v.len() >= 3 && v[0] == CR && v[1] == LF && is_wsp(v[2]) {
        unfolded(v.skip(3))
    } else if v.len() >= 2 && v[0] == LF && is_wsp(v[1]) {
        unfolded(v.skip(2))
    } else {
        seq![v[0]] + unfolded(v.skip(1))
    }
}

/// Removes every folding point from `src` (see [`unfolded`]).
pub fn unfold(src: &[u8]) -> (r: Vec<u8>)
    ensures
        r@ == unfolded(src@),
{
    let mut out: Vec<u8> = Vec::new();
    let mut i: usize = 0;
    assert(src@.skip(0) =~= src@);
    assert(out@ + unfolded(src@) =~= unfolded(src@));
    while i < src.len()
        invariant
            i <= src.len(),
            out@ + unfolded(src@.skip(i as int)) == unfolded(src@),
        decreases src.len() - i,
    {
        let ghost rest = src@.skip(i as int);
        assert(rest[0] == src@[i as int]);
        if src.len() - i > 2 && src[i] == CR && src[i + 1] == LF && (src[i + 2] == SPACE || src[i
            + 2] == HTAB) {
            assert(rest[1] == src@[i + 1] && rest[2] == src@[i + 2]);
            assert(rest.skip(3) =~= src@.skip(i + 3));
            i += 3;
        } else if src.len() - i > 1 && src[i] == LF && (src[i + 1] == SPACE || src[i + 1] == HTAB) {
            assert(rest[1] == src@[i + 1]);
            assert(rest.skip(2) =~= src@.skip(i + 2));
            i += 2;
        } else {
            if src.len() - i > 2 {
                assert(rest[1] == src@[i + 1] && rest[2] == src@[i + 2]);
            } else if src.len() - i > 1 {
                assert(rest[1] == src@[i + 1]);
            }
            assert(rest.skip(1) =~= src@.skip(i + 1));
            out.push(src[i]);
            assert(out@ + unfolded(src@.skip(i + 1)) =~= out@.drop_last() + (seq![src@[i as int]]
                + unfolded(src@.skip(i + 1))));
            i += 1;
        }
    }
    assert(src@.skip(src.len() as int) =~= Seq::<u8>::empty());
    assert(out@ + Seq::<u8>::empty() =~= out@);
    out
}

} // verus!
