//! Tokenizer for content lines (RFC 5545 §3.1, RFC 6350 §3.3).
//!
//! `BEGIN`/`END` lines become a token carrying the component name; every
//! other content line becomes one [`TokenType::Property`] token holding the
//! upper-cased property name and the raw, unparsed rest of the line.

use vstd::prelude::*;
use vstd::string::StringSliceAdditionalSpecFns;
use crate::ast::unfold::{unfold, unfolded};
use crate::bytes::{
    eq_str, is_alnum, is_ascii_alnum, copy_range, to_upper, upper, COLON, CR, DOT, HTAB, HYPHEN, LF,
    SPACE,
};

verus! {

/// Calls `memchr::memchr2`.
///
/// Its documentation says it returns the index of the first byte of
/// `haystack` equal to `needle1` or `needle2`, or `None` when there is no
/// such byte; the contract states exactly that.
#[verifier::external_body]
fn memchr2(needle1: u8, needle2: u8, haystack: &[u8]) -> (r: Option<usize>)
    ensures
        match r {
            Some(i) => i < haystack@.len() && (haystack@[i as int] == needle1 || haystack@[i as int]
                == needle2) && forall|j: int|
                0 <= j < i ==> haystack@[j] != needle1 && haystack@[j] != needle2,
            None => forall|j: int|
                0 <= j < haystack@.len() ==> haystack@[j] != needle1 && haystack@[j] != needle2,
        },
{
    memchr::memchr2(needle1, needle2, haystack)
}

/// What a token is.
#[derive(Debug, Clone, Copy, PartialEq, Eq, Structural)]
pub enum TokenType {
    /// A `BEGIN:<name>` line.
    Begin,
    /// An `END:<name>` line.
    End,
    /// Any other content line.
    Property,
    /// A line break.
    Crlf,
    /// The end of the input.
    Eof,
}

/// One token of a content-line stream.
#[derive(Debug)]
pub struct Token {
    token_type: TokenType,
    lexeme: Vec<u8>,
    literal: Vec<u8>,
    line: usize,
    group: Option<Vec<u8>>,
}

/// A token as a value: its type, its lexeme, its literal, the (unfolded)
/// line it was found on, and the vCard group that prefixed it.
pub ghost struct TokenView {
    pub token_type: TokenType,
    pub lexeme: Seq<u8>,
    pub literal: Seq<u8>,
    pub line: usize,
    pub group: Option<Seq<u8>>,
}

impl View for Token {
    type V = TokenView;

    closed spec fn view(&self) -> TokenView {
        TokenView {
            token_type: self.token_type,
            lexeme: self.lexeme@,
            literal: self.literal@,
            line: self.line,
            group: match self.group {
                Some(g) => Some(g@),
                None => None,
            },
        }
    }
}

impl Token {
    /// What the token is.
    pub fn token_type(&self) -> (r: TokenType)
        ensures
            r == self@.token_type,
    {
        self.token_type
    }

    /// `BEGIN`/`END` for a component line, the property name for a
    /// property line, the line break itself for a [`TokenType::Crlf`].
    pub fn lexeme(&self) -> (r: &[u8])
        ensures
            r@ == self@.lexeme,
    {
        self.lexeme.as_slice()
    }

    /// The component name of a `BEGIN`/`END` line, the unparsed rest of a
    /// property line, empty otherwise.
    pub fn literal(&self) -> (r: &[u8])
        ensures
            r@ == self@.literal,
    {
        self.literal.as_slice()
    }

    /// The (unfolded) line the token was found on, counted from 0.
    pub fn line(&self) -> (r: usize)
        ensures
            r == self@.line,
    {
        self.line
    }

    /// The vCard group that prefixed the property name, if any.
    pub fn group(&self) -> (r: Option<&[u8]>)
        ensures
            match r {
                Some(g) => self@.group == Some(g@),
                None => self@.group is None,
            },
    {
        match &self.group {
            Some(g) => Some(g.as_slice()),
            None => None,
        }
    }
}

/// Why the input could not be tokenized.
#[derive(Debug, PartialEq, Eq, Structural)]
pub enum LexerError {
    /// A byte that can't start a content line.
    UnknownLexeme { line: usize, got: u8 },
    /// A CR not followed by LF.
    Crlf { line: usize },
    /// `BEGIN`/`END` not followed by `:`.
    ExpectedColon { line: usize },
    /// A vCard property group (`group "."`) with no property name after
    /// the dot, e.g. `item1.:value`.
    EmptyName { line: usize },
    /// A vCard `BEGIN`/`END` line carrying a group, which RFC 6350 §6.1
    /// doesn't allow (`group` only prefixes a property `name`).
    GroupedComponent { line: usize },
}

// ---------------------------------------------------------------------
// The token grammar, as values.

/// The UTF-8 byte-order mark.
pub open spec fn bom() -> Seq<u8> {
    seq![0xEFu8, 0xBBu8, 0xBFu8]
}

/// `v` without a leading byte-order mark.
pub open spec fn without_bom(v: Seq<u8>) -> Seq<u8> {
    if v.len() >= 3 && v.take(3) == bom() {
        v.skip(3)
    } else {
        v
    }
}

/// Bytes that may form a property or component name.
pub open spec fn is_name_char(b: u8) -> bool {
    is_alnum(b) || b == HYPHEN
}

/// The end of the run of name characters starting at `i`.
pub open spec fn name_end(src: Seq<u8>, i: int) -> int
    decreases src.len() - i,
{
    if 0 <= i < src.len() && is_name_char(src[i]) {
        name_end(src, i + 1)
    } else {
        i
    }
}

/// The first CR or LF at or after `i`, or the end of `src`.
pub open spec fn line_end(src: Seq<u8>, i: int) -> int
    decreases src.len() - i,
{
    if 0 <= i < src.len() && src[i] != CR && src[i] != LF {
        line_end(src, i + 1)
    } else if i < 0 {
        0
    } else {
        i
    }
}

pub open spec fn plain_token(
    tt: TokenType,
    lexeme: Seq<u8>,
    literal: Seq<u8>,
    line: usize,
) -> TokenView {
    TokenView { token_type: tt, lexeme, literal, line, group: None }
}

/// A property line whose name has been read up to `i`: its token, and
/// where the line ends.
pub open spec fn property_token(
    src: Seq<u8>,
    i: int,
    name: Seq<u8>,
    group: Option<Seq<u8>>,
    line: usize,
) -> (TokenView, int) {
    let e = line_end(src, i);
    (
        TokenView {
            token_type: TokenType::Property,
            lexeme: name,
            literal: src.subrange(i, e),
            line,
            group,
        },
        e,
    )
}

/// A `BEGIN`/`END` keyword read up to `i`: `:` and the component name.
pub open spec fn component_token(src: Seq<u8>, i: int, tt: TokenType, line: usize) -> Result<
    (TokenView, int),
    LexerError,
> {
    if i >= src.len() || src[i] != COLON {
        Err(LexerError::ExpectedColon { line })
    } else {
        let e = name_end(src, i + 1);
        let kw = if tt == TokenType::Begin {
            "BEGIN".spec_bytes()
        } else {
            "END".spec_bytes()
        };
        Ok((plain_token(tt, kw, upper(src.subrange(i + 1, e)), line), e))
    }
}

/// The content line whose name starts at `start`.
pub open spec fn line_token(src: Seq<u8>, start: int, line: usize, vcard: bool) -> Result<
    (TokenView, int),
    LexerError,
> {
    let e1 = name_end(src, start);
    if vcard && e1 < src.len() && src[e1] == DOT {
        let e2 = name_end(src, e1 + 1);
        if e2 == e1 + 1 {
            Err(LexerError::EmptyName { line })
        } else {
            let name = upper(src.subrange(e1 + 1, e2));
            if name == "BEGIN".spec_bytes() || name == "END".spec_bytes() {
                Err(LexerError::GroupedComponent { line })
            } else {
                Ok(property_token(src, e2, name, Some(src.subrange(start, e1)), line))
            }
        }
    } else {
        let name = upper(src.subrange(start, e1));
        if name == "BEGIN".spec_bytes() {
            component_token(src, e1, TokenType::Begin, line)
        } else if name == "END".spec_bytes() {
            component_token(src, e1, TokenType::End, line)
        } else {
            Ok(property_token(src, e1, name, None, line))
        }
    }
}

pub open spec fn prepend(t: TokenView, r: Result<Seq<TokenView>, LexerError>) -> Result<
    Seq<TokenView>,
    LexerError,
> {
    match r {
        Ok(ts) => Ok(seq![t] + ts),
        Err(e) => Err(e),
    }
}

/// The tokens of `src` from position `pos` on, the line counter standing
/// at `line`.
pub open spec fn lex_from(src: Seq<u8>, pos: int, line: usize, vcard: bool) -> Result<
    Seq<TokenView>,
    LexerError,
>
    decreases src.len() - pos,
{
    if pos < 0 || pos >= src.len() {
        Ok(seq![plain_token(TokenType::Eof, seq![], seq![], line)])
    } else {
        let c = src[pos];
        if c == CR {
            if pos + 1 < src.len() && src[pos + 1] == LF {
                prepend(
                    plain_token(TokenType::Crlf, seq![CR, LF], seq![], line),
                    lex_from(src, pos + 2, (line + 1) as usize, vcard),
                )
            } else {
                Err(LexerError::Crlf { line })
            }
        } else if c == LF {
            prepend(
                plain_token(TokenType::Crlf, seq![LF], seq![], line),
                lex_from(src, pos + 1, (line + 1) as usize, vcard),
            )
        } else if (c == SPACE || c == HTAB) && !vcard {
            lex_from(src, pos + 1, line, vcard)
        } else if is_alnum(c) {
            match line_token(src, pos, line, vcard) {
                Ok((t, next)) => if pos < next <= src.len() {
                    prepend(t, lex_from(src, next, line, vcard))
                } else {
                    Err(LexerError::UnknownLexeme { line, got: c })
                },
                Err(e) => Err(e),
            }
        } else {
            Err(LexerError::UnknownLexeme { line, got: c })
        }
    }
}

/// The tokens of (already unfolded) `src`.
pub open spec fn lex(src: Seq<u8>, vcard: bool) -> Result<Seq<TokenView>, LexerError> {
    lex_from(src, 0, 0, vcard)
}

pub open spec fn views(ts: Seq<Token>) -> Seq<TokenView> {
    ts.map_values(|t: Token| t@)
}

// ---------------------------------------------------------------------
// Facts about the grammar.

proof fn lemma_name_end(src: Seq<u8>, i: int)
    requires
        0 <= i <= src.len(),
    ensures
        i <= name_end(src, i) <= src.len(),
        forall|k: int| i <= k < name_end(src, i) ==> is_name_char(#[trigger] src[k]),
        name_end(src, i) < src.len() ==> !is_name_char(src[name_end(src, i)]),
    decreases src.len() - i,
{
    if i < src.len() && is_name_char(src[i]) {
        lemma_name_end(src, i + 1);
    }
}

proof fn lemma_line_end(src: Seq<u8>, i: int)
    requires
        0 <= i <= src.len(),
    ensures
        i <= line_end(src, i) <= src.len(),
        forall|k: int| i <= k < line_end(src, i) ==> #[trigger] src[k] != CR && src[k] != LF,
        line_end(src, i) < src.len() ==> (src[line_end(src, i)] == CR || src[line_end(src, i)]
            == LF),
    decreases src.len() - i,
{
    if i < src.len() && src[i] != CR && src[i] != LF {
        lemma_line_end(src, i + 1);
    }
}

// ---------------------------------------------------------------------
// The tokenizer.

/// Tokenizer state: the unfolded source and whether it's vCard content.
#[derive(Debug)]
pub struct Lexer {
    source: Vec<u8>,
    vcard: bool,
}

impl Lexer {
    /// The unfolded bytes the lexer will tokenize.
    pub closed spec fn source(&self) -> Seq<u8> {
        self.source@
    }

    /// Whether the lexer reads vCard content.
    pub closed spec fn is_vcard(&self) -> bool {
        self.vcard
    }

    /// Creates a new [Lexer] out of a source.
    ///
    /// A leading UTF-8 byte-order mark (`EF BB BF`), if present, is
    /// stripped before anything else; `src` is then unfolded (RFC 5545
    /// §3.1), so every token position is a logical content line.
    pub fn new(src: &[u8]) -> (r: Lexer)
        ensures
            r.source() == unfolded(without_bom(src@)),
            !r.is_vcard(),
    {
        let body = if src.len() >= 3 && src[0] == 0xEF && src[1] == 0xBB && src[2] == 0xBF {
            assert(src@.take(3) =~= bom());
            vstd::slice::slice_subrange(src, 3, src.len())
        } else {
            proof {
                if src@.len() >= 3 && src@.take(3) == bom() {
                    assert(src@.take(3)[0] == src@[0]);
                    assert(src@.take(3)[1] == src@[1]);
                    assert(src@.take(3)[2] == src@[2]);
                }
            }
            src
        };
        assert(body@ =~= without_bom(src@));
        Lexer { source: unfold(body), vcard: false }
    }

    /// Creates a [`Lexer`] for vCard (RFC 6350) content: a property name
    /// may be prefixed by a group (`item1.TEL:...`), and whitespace at the
    /// start of a logical line is an error.
    pub fn vcard(src: &[u8]) -> (r: Lexer)
        ensures
            r.source() == unfolded(without_bom(src@)),
            r.is_vcard(),
    {
        let l = Lexer::new(src);
        Lexer { source: l.source, vcard: true }
    }

    /// Scans the source for tokens.
    pub fn scan(self) -> (r: Result<Vec<Token>, LexerError>)
        ensures
            match (r, lex(self.source(), self.is_vcard())) {
                (Ok(ts), Ok(vs)) => views(ts@) == vs,
                (Err(e), Err(f)) => e == f,
                _ => false,
            },
    {
        let src = self.source.as_slice();
        let vcard = self.vcard;
        let mut tokens: Vec<Token> = Vec::new();
        let mut pos: usize = 0;
        let mut line: usize = 0;
        assert(views(tokens@) =~= Seq::<TokenView>::empty());
        while pos < src.len()
            invariant
                pos <= src.len(),
                line <= pos,
                src@ == self.source(),
                vcard == self.is_vcard(),
                lex(src@, vcard) == match lex_from(src@, pos as int, line, vcard) {
                    Ok(rest) => Ok(views(tokens@) + rest),
                    Err(e) => Err(e),
                },
            decreases src.len() - pos,
        {
            let c = src[pos];
            if c == CR {
                if src.len() - pos > 1 && src[pos + 1] == LF {
                    let mut lexeme: Vec<u8> = Vec::new();
                    lexeme.push(CR);
                    lexeme.push(LF);
                    let t = Token {
                        token_type: TokenType::Crlf,
                        lexeme,
                        literal: Vec::new(),
                        line,
                        group: None,
                    };
                    proof {
                        assert(t.lexeme@ =~= seq![CR, LF]);
                        assert(t.literal@ =~= Seq::<u8>::empty());
                        assert(t@ == plain_token(TokenType::Crlf, seq![CR, LF], seq![], line));
                        lemma_push_view(tokens@, t);
                        lemma_step(views(tokens@), t@, lex_from(src@, pos + 2, (line + 1) as usize, vcard));
                    }
                    tokens.push(t);
                    pos += 2;
                    line += 1;
                } else {
                    return Err(LexerError::Crlf { line });
                }
            } else if c == LF {
                let mut lexeme: Vec<u8> = Vec::new();
                lexeme.push(LF);
                let t = Token {
                    token_type: TokenType::Crlf,
                    lexeme,
                    literal: Vec::new(),
                    line,
                    group: None,
                };
                proof {
                    assert(t.lexeme@ =~= seq![LF]);
                    assert(t.literal@ =~= Seq::<u8>::empty());
                    assert(t@ == plain_token(TokenType::Crlf, seq![LF], seq![], line));
                    lemma_push_view(tokens@, t);
                    lemma_step(views(tokens@), t@, lex_from(src@, pos + 1, (line + 1) as usize, vcard));
                }
                tokens.push(t);
                pos += 1;
                line += 1;
            } else if (c == SPACE || c == HTAB) && !vcard {
                pos += 1;
            } else if is_ascii_alnum(c) {
                match Self::line_content(src, pos, line, vcard) {
                    Ok((t, next)) => {
                        proof {
                            lemma_push_view(tokens@, t);
                            lemma_step(views(tokens@), t@, lex_from(src@, next as int, line, vcard));
                        }
                        tokens.push(t);
                        pos = next;
                    },
                    Err(e) => {
                        return Err(e);
                    },
                }
            } else {
                return Err(LexerError::UnknownLexeme { line, got: c });
            }
        }
        let eof = Token {
            token_type: TokenType::Eof,
            lexeme: Vec::new(),
            literal: Vec::new(),
            line,
            group: None,
        };
        proof {
            assert(eof.lexeme@ =~= Seq::<u8>::empty());
            assert(eof.literal@ =~= Seq::<u8>::empty());
            assert(eof@ == plain_token(TokenType::Eof, seq![], seq![], line));
            lemma_push_view(tokens@, eof);
        }
        tokens.push(eof);
        Ok(tokens)
    }

    /// Advances past a run of name characters (`ALPHA` / `DIGIT` / `-`).
    fn name_chars(src: &[u8], start: usize) -> (r: usize)
        requires
            start <= src.len(),
        ensures
            r == name_end(src@, start as int),
    {
        proof {
            lemma_name_end(src@, start as int);
        }
        let mut i = start;
        while i < src.len() && (is_ascii_alnum(src[i]) || src[i] == HYPHEN)
            invariant
                start <= i <= src.len(),
                name_end(src@, i as int) == name_end(src@, start as int),
            decreases src.len() - i,
        {
            i += 1;
        }
        i
    }

    /// Scans one content line's name field, then produces either a
    /// component token or a property token holding the rest of the line.
    fn line_content(src: &[u8], start: usize, line: usize, vcard: bool) -> (r: Result<
        (Token, usize),
        LexerError,
    >)
        requires
            start < src.len(),
            is_alnum(src@[start as int]),
        ensures
            match (r, line_token(src@, start as int, line, vcard)) {
                (Ok((t, n)), Ok((tv, m))) => t@ == tv && n == m && start < n <= src.len(),
                (Err(e), Err(f)) => e == f,
                _ => false,
            },
    {
        let e1 = Self::name_chars(src, start);
        proof {
            lemma_name_end(src@, start as int);
        }
        if vcard && e1 < src.len() && src[e1] == DOT {
            let e2 = Self::name_chars(src, e1 + 1);
            proof {
                lemma_name_end(src@, e1 + 1);
            }
            if e2 == e1 + 1 {
                return Err(LexerError::EmptyName { line });
            }
            let name = to_upper(vstd::slice::slice_subrange(src, e1 + 1, e2));
            if eq_str(name.as_slice(), "BEGIN") || eq_str(name.as_slice(), "END") {
                return Err(LexerError::GroupedComponent { line });
            }
            let group = copy_range(src, start, e1);
            let (t, n) = Self::property(src, e2, name, Some(group), line);
            Ok((t, n))
        } else {
            let name = to_upper(vstd::slice::slice_subrange(src, start, e1));
            if eq_str(name.as_slice(), "BEGIN") {
                Self::component(src, e1, TokenType::Begin, line)
            } else if eq_str(name.as_slice(), "END") {
                Self::component(src, e1, TokenType::End, line)
            } else {
                let (t, n) = Self::property(src, e1, name, None, line);
                Ok((t, n))
            }
        }
    }

    /// `BEGIN`/`END` are followed by `:` and a component name.
    fn component(src: &[u8], i: usize, tt: TokenType, line: usize) -> (r: Result<
        (Token, usize),
        LexerError,
    >)
        requires
            i <= src.len(),
        ensures
            match (r, component_token(src@, i as int, tt, line)) {
                (Ok((t, n)), Ok((tv, m))) => t@ == tv && n == m && i < n <= src.len(),
                (Err(e), Err(f)) => e == f,
                _ => false,
            },
    {
        if i >= src.len() || src[i] != COLON {
            return Err(LexerError::ExpectedColon { line });
        }
        let e = Self::name_chars(src, i + 1);
        proof {
            lemma_name_end(src@, i + 1);
        }
        let name = to_upper(vstd::slice::slice_subrange(src, i + 1, e));
        let kw = if tt == TokenType::Begin {
            "BEGIN"
        } else {
            "END"
        };
        let mut lexeme: Vec<u8> = Vec::new();
        crate::bytes::append_str(&mut lexeme, kw);
        assert(lexeme@ =~= kw.spec_bytes());
        Ok((Token { token_type: tt, lexeme, literal: name, line, group: None }, e))
    }

    /// Any other content line: the name and the raw remainder, from right
    /// after the name to the end of the line.
    fn property(
        src: &[u8],
        i: usize,
        name: Vec<u8>,
        group: Option<Vec<u8>>,
        line: usize,
    ) -> (r: (Token, usize))
        requires
            i <= src.len(),
        ensures
            r.0@ == property_token(
                src@,
                i as int,
                name@,
                match group {
                    Some(g) => Some(g@),
                    None => None,
                },
                line,
            ).0,
            r.1 == property_token(src@, i as int, name@, None, line).1,
            i <= r.1 <= src.len(),
    {
        let rest = vstd::slice::slice_subrange(src, i, src.len());
        let e = match memchr2(CR, LF, rest) {
            Some(k) => i + k,
            None => src.len(),
        };
        proof {
            lemma_line_end(src@, i as int);
            let le = line_end(src@, i as int);
            if le < e {
                assert(rest@[le - i] == src@[le]);
            }
            if e < le {
                assert(rest@[e - i] == src@[e as int]);
            }
        }
        let literal = copy_range(src, i, e);
        (Token { token_type: TokenType::Property, lexeme: name, literal, line, group }, e)
    }
}

proof fn lemma_step(prefix: Seq<TokenView>, t: TokenView, r: Result<Seq<TokenView>, LexerError>)
    ensures
        match prepend(t, r) {
            Ok(rest) => Ok(prefix + rest),
            Err(e) => Err(e),
        } == match r {
            Ok(rest) => Ok((prefix + seq![t]) + rest),
            Err(e) => Err(e),
        },
{
    match r {
        Ok(rest) => {
            assert(prefix + (seq![t] + rest) =~= (prefix + seq![t]) + rest);
        },
        Err(e) => {},
    }
}

proof fn lemma_push_view(ts: Seq<Token>, t: Token)
    ensures
        views(ts.push(t)) == views(ts) + seq![t@],
{
    assert(views(ts.push(t)) =~= views(ts) + seq![t@]);
}

} // verus!
