//! Components this crate doesn't model, kept whole.

use vstd::prelude::*;
use vstd::string::StringSliceAdditionalSpecFns;
use vstd::utf8::encode_utf8;
use crate::bytes::{append_str, lemma_ascii_seq_valid, CR, LF};
use crate::components::lemma_crlf_valid;
use crate::values::Ical;
use vstd::utf8::{encode_utf8_valid_utf8, valid_utf8, valid_utf8_concat};

verus! {

/// A component with a name this crate doesn't recognize: its content lines
/// kept as text, and the components nested in it.
#[derive(Debug)]
pub struct UnknownComponent {
    name: String,
    lines: Vec<String>,
    components: Vec<UnknownComponent>,
}

impl UnknownComponent {
    /// The component's name.
    pub closed spec fn spec_name(&self) -> Seq<char> {
        self.name@
    }

    /// The component's own content lines.
    pub closed spec fn spec_lines(&self) -> Seq<Seq<char>> {
        self.lines@.map_values(|l: String| l@)
    }

    /// The components nested in it.
    pub closed spec fn spec_components(&self) -> Seq<UnknownComponent> {
        self.components@
    }

    /// A component named `name` holding `lines` and the nested `components`.
    pub fn new(name: String, lines: Vec<String>, components: Vec<UnknownComponent>) -> (r:
        UnknownComponent)
        ensures
            r.spec_name() == name@,
            r.spec_lines() == lines@.map_values(|l: String| l@),
            r.spec_components() == components@,
    {
        UnknownComponent { name, lines, components }
    }

    /// The component's name, as it appeared after `BEGIN:`.
    pub fn name(&self) -> (r: &str)
        ensures
            r@ == self.spec_name(),
    {
        self.name.as_str()
    }

    /// The component's own content lines, in order.
    pub fn lines(&self) -> (r: &[String])
        ensures
            r@.map_values(|l: String| l@) == self.spec_lines(),
    {
        self.lines.as_slice()
    }

    /// The components nested in it, in order.
    pub fn components(&self) -> (r: &[UnknownComponent])
        ensures
            r@ == self.spec_components(),
    {
        self.components.as_slice()
    }
}

/// A content line kept as text, with its CRLF.
pub open spec fn text_line(l: Seq<char>) -> Seq<u8> {
    encode_utf8(l) + seq![CR, LF]
}

/// Content lines kept as text, each with its CRLF.
pub open spec fn text_lines(ls: Seq<Seq<char>>) -> Seq<u8>
    decreases ls.len(),
{
    if ls.len() == 0 {
        seq![]
    } else {
        text_lines(ls.drop_last()) + text_line(ls.last())
    }
}

/// How a kept component is written: `BEGIN:` and its name, its lines, the
/// components nested in it, and `END:` and its name.
pub closed spec fn unknown_text(c: UnknownComponent) -> Seq<u8>
    decreases c, 1int,
{
    let name = encode_utf8(c.name@);
    "BEGIN:".spec_bytes() + name + seq![CR, LF] + text_lines(c.spec_lines()) + nested_text(c.components@)
        + "END:".spec_bytes() + name + seq![CR, LF]
}

/// Kept components written one after another.
pub closed spec fn nested_text(cs: Seq<UnknownComponent>) -> Seq<u8>
    decreases cs, 0int,
{
    if cs.len() == 0 {
        seq![]
    } else {
        nested_text(cs.drop_last()) + unknown_text(cs.last())
    }
}

proof fn lemma_text_lines_valid(ls: Seq<Seq<char>>)
    ensures
        valid_utf8(text_lines(ls)),
    decreases ls.len(),
{
    if ls.len() == 0 {
        lemma_ascii_seq_valid(Seq::<u8>::empty());
    } else {
        lemma_text_lines_valid(ls.drop_last());
        encode_utf8_valid_utf8(ls.last());
        lemma_crlf_valid();
        valid_utf8_concat(encode_utf8(ls.last()), seq![CR, LF]);
        valid_utf8_concat(text_lines(ls.drop_last()), text_line(ls.last()));
    }
}

proof fn lemma_unknown_valid(c: UnknownComponent)
    ensures
        valid_utf8(unknown_text(c)),
    decreases c, 1int,
{
    let name = encode_utf8(c.name@);
    encode_utf8_valid_utf8(c.name@);
    encode_utf8_valid_utf8("BEGIN:"@);
    encode_utf8_valid_utf8("END:"@);
    lemma_crlf_valid();
    lemma_text_lines_valid(c.spec_lines());
    lemma_nested_valid(c.components@);
    let a = "BEGIN:".spec_bytes();
    let crlf = seq![CR, LF];
    let ls = text_lines(c.spec_lines());
    let ns = nested_text(c.components@);
    let e = "END:".spec_bytes();
    valid_utf8_concat(a, name);
    valid_utf8_concat(a + name, crlf);
    valid_utf8_concat(a + name + crlf, ls);
    valid_utf8_concat(a + name + crlf + ls, ns);
    valid_utf8_concat(a + name + crlf + ls + ns, e);
    valid_utf8_concat(a + name + crlf + ls + ns + e, name);
    valid_utf8_concat(a + name + crlf + ls + ns + e + name, crlf);
}

proof fn lemma_nested_valid(cs: Seq<UnknownComponent>)
    ensures
        valid_utf8(nested_text(cs)),
    decreases cs, 0int,
{
    if cs.len() == 0 {
        lemma_ascii_seq_valid(Seq::<u8>::empty());
    } else {
        lemma_nested_valid(cs.drop_last());
        lemma_unknown_valid(cs.last());
        valid_utf8_concat(nested_text(cs.drop_last()), unknown_text(cs.last()));
    }
}

fn write_unknown(c: &UnknownComponent, out: &mut Vec<u8>)
    ensures
        final(out)@ == old(out)@ + unknown_text(*c),
    decreases c, 1int,
{
    append_str(out, "BEGIN:");
    append_str(out, c.name.as_str());
    out.push(CR);
    out.push(LF);
    let ghost a = out@;
    let mut i: usize = 0;
    assert(c.spec_lines().take(0) =~= Seq::<Seq<char>>::empty());
    while i < c.lines.len()
        invariant
            i <= c.lines.len(),
            out@ == a + text_lines(c.spec_lines().take(i as int)),
        decreases c.lines.len() - i,
    {
        append_str(out, c.lines[i].as_str());
        out.push(CR);
        out.push(LF);
        assert(c.spec_lines().take(i + 1).drop_last() =~= c.spec_lines().take(i as int));
        assert(out@ =~= a + text_lines(c.spec_lines().take(i + 1)));
        i += 1;
    }
    assert(c.spec_lines().take(c.lines.len() as int) =~= c.spec_lines());
    write_nested(c.components.as_slice(), out);
    append_str(out, "END:");
    append_str(out, c.name.as_str());
    out.push(CR);
    out.push(LF);
    assert(out@ =~= old(out)@ + unknown_text(*c));
}

fn write_nested(cs: &[UnknownComponent], out: &mut Vec<u8>)
    ensures
        final(out)@ == old(out)@ + nested_text(cs@),
    decreases cs@, 0int,
{
    let ghost start = out@;
    let mut i: usize = 0;
    assert(cs@.take(0) =~= Seq::<UnknownComponent>::empty());
    while i < cs.len()
        invariant
            i <= cs.len(),
            out@ == start + nested_text(cs@.take(i as int)),
        decreases cs.len() - i,
    {
        write_unknown(&cs[i], out);
        assert(cs@.take(i + 1).drop_last() =~= cs@.take(i as int));
        assert(out@ =~= start + nested_text(cs@.take(i + 1)));
        i += 1;
    }
    assert(cs@.take(cs.len() as int) =~= cs@);
}

impl Ical for UnknownComponent {
    /// `BEGIN:` and the name, the kept lines, the nested components, and
    /// `END:` and the name.
    open spec fn ical(&self) -> Seq<u8> {
        unknown_text(*self)
    }

    proof fn lemma_ical_valid(&self) {
        lemma_unknown_valid(*self);
    }

    fn write_to(&self, out: &mut Vec<u8>) {
        write_unknown(self, out)
    }
}

} // verus!
