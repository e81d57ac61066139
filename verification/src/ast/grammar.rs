//! The shape of a token stream that reads as calendar objects (RFC 5545
//! §3.4, §3.6), as spec functions over token values: where each
//! `BEGIN`/`END` block ends, which of its lines are its own property lines
//! and where its nested blocks start. A stream whose shape fails here
//! cannot be read by the parser.

use vstd::prelude::*;
use vstd::string::StringSliceAdditionalSpecFns;
use vstd::utf8::valid_utf8;
use crate::ast::lexer::{TokenType, TokenView};
use crate::ast::property::Property;

verus! {

/// What a block is read as, which decides what may stand in it.
pub enum Ctx {
    Event,
    Todo,
    Journal,
    FreeBusy,
    Timezone,
    Availability,
    Alarm,
    Location,
    Observance,
    Available,
    /// A component this crate doesn't model, kept whole.
    Other,
}

/// What a top-level component whose `BEGIN` names `name` is read as.
pub open spec fn kind_named(name: Seq<u8>) -> Ctx {
    if name == "VEVENT".spec_bytes() {
        Ctx::Event
    } else if name == "VTODO".spec_bytes() {
        Ctx::Todo
    } else if name == "VJOURNAL".spec_bytes() {
        Ctx::Journal
    } else if name == "VFREEBUSY".spec_bytes() {
        Ctx::FreeBusy
    } else if name == "VTIMEZONE".spec_bytes() {
        Ctx::Timezone
    } else if name == "VAVAILABILITY".spec_bytes() {
        Ctx::Availability
    } else {
        Ctx::Other
    }
}

/// What a block named `name` nested in a `parent` block is read as, if it
/// may stand there: `VALARM` in an event or a to-do, `STANDARD` and
/// `DAYLIGHT` in a time zone, `AVAILABLE` in an availability, `VLOCATION`
/// in an alarm, and anything in a component kept whole.
pub open spec fn nested_ok(parent: Ctx, name: Seq<u8>) -> Option<Ctx> {
    match parent {
        Ctx::Event | Ctx::Todo => if name == "VALARM".spec_bytes() {
            Some(Ctx::Alarm)
        } else {
            None
        },
        Ctx::Timezone => if name == "STANDARD".spec_bytes() || name == "DAYLIGHT".spec_bytes() {
            Some(Ctx::Observance)
        } else {
            None
        },
        Ctx::Availability => if name == "AVAILABLE".spec_bytes() {
            Some(Ctx::Available)
        } else {
            None
        },
        Ctx::Alarm => if name == "VLOCATION".spec_bytes() {
            Some(Ctx::Location)
        } else {
            None
        },
        Ctx::Other => Some(Ctx::Other),
        _ => None,
    }
}

/// Whether the tokens at `i` are a property token and its line break.
pub open spec fn line_at(ts: Seq<TokenView>, i: int) -> bool {
    &&& 0 <= i
    &&& i + 1 < ts.len()
    &&& ts[i].token_type == TokenType::Property
    &&& ts[i + 1].token_type == TokenType::Crlf
}

/// Whether the property line at `i` can stand in a `ctx` block: in a
/// component kept whole its text must be UTF-8, elsewhere it must parse.
pub open spec fn line_ok(ctx: Ctx, ts: Seq<TokenView>, i: int) -> bool {
    &&& line_at(ts, i)
    &&& if ctx is Other {
        valid_utf8(ts[i].lexeme + ts[i].literal)
    } else {
        Property::parses(ts[i].lexeme, ts[i].literal)
    }
}

/// Where the body of a `ctx` block that starts at `i` reaches its `END`
/// token, if its property lines and nested blocks read up to there.
pub open spec fn body_end(ts: Seq<TokenView>, i: int, ctx: Ctx) -> Option<int>
    decreases ts.len() - i, 1int,
{
    if !(0 <= i < ts.len()) {
        None
    } else if ts[i].token_type == TokenType::End {
        Some(i)
    } else if ts[i].token_type == TokenType::Begin {
        match nested_ok(ctx, ts[i].literal) {
            Some(k) => match block_end(ts, i, k) {
                Some(j) => if i < j <= ts.len() {
                    body_end(ts, j, ctx)
                } else {
                    None
                },
                None => None,
            },
            None => None,
        }
    } else if line_ok(ctx, ts, i) {
        body_end(ts, i + 2, ctx)
    } else {
        None
    }
}

/// Where a `ctx` block whose `BEGIN` token is at `s` ends, just after the
/// line break of its `END`, if it reads: `BEGIN` and a line break, its
/// body, then `END` repeating the name and a line break.
pub open spec fn block_end(ts: Seq<TokenView>, s: int, ctx: Ctx) -> Option<int>
    decreases ts.len() - s, 0int,
{
    if 0 <= s && s + 1 < ts.len() && ts[s].token_type == TokenType::Begin && ts[s + 1].token_type
        == TokenType::Crlf {
        match body_end(ts, s + 2, ctx) {
            Some(k) => if k + 1 < ts.len() && ts[k].literal == ts[s].literal && ts[k + 1].token_type
                == TokenType::Crlf && (ctx is Other ==> valid_utf8(ts[s].literal)) {
                Some(k + 2)
            } else {
                None
            },
            None => None,
        }
    } else {
        None
    }
}

/// A body's `END` comes no earlier than where the body is looked for.
pub proof fn lemma_body_end_after(ts: Seq<TokenView>, i: int, ctx: Ctx)
    ensures
        body_end(ts, i, ctx) matches Some(k) ==> i <= k,
    decreases ts.len() - i,
{
    if 0 <= i < ts.len() && ts[i].token_type != TokenType::End {
        if ts[i].token_type == TokenType::Begin {
            if let Some(k) = nested_ok(ctx, ts[i].literal) {
                if let Some(j) = block_end(ts, i, k) {
                    if i < j <= ts.len() {
                        lemma_body_end_after(ts, j, ctx);
                    }
                }
            }
        } else if line_ok(ctx, ts, i) {
            lemma_body_end_after(ts, i + 2, ctx);
        }
    }
}

/// A block ends after its `BEGIN` token, within the tokens.
pub proof fn lemma_block_end_after(ts: Seq<TokenView>, s: int, ctx: Ctx)
    ensures
        block_end(ts, s, ctx) matches Some(j) ==> s < j <= ts.len(),
{
    lemma_body_end_after(ts, s + 2, ctx);
}

/// The positions of the property lines of the body of a `ctx` block from
/// `i` on, its own only (not those of nested blocks), in order.
pub open spec fn line_positions(ts: Seq<TokenView>, i: int, ctx: Ctx) -> Seq<int>
    decreases ts.len() - i,
{
    if !(0 <= i < ts.len()) {
        Seq::empty()
    } else if ts[i].token_type == TokenType::End {
        Seq::empty()
    } else if ts[i].token_type == TokenType::Begin {
        match nested_ok(ctx, ts[i].literal) {
            Some(k) => match block_end(ts, i, k) {
                Some(j) => if i < j <= ts.len() {
                    line_positions(ts, j, ctx)
                } else {
                    Seq::empty()
                },
                None => Seq::empty(),
            },
            None => Seq::empty(),
        }
    } else if line_ok(ctx, ts, i) {
        seq![i] + line_positions(ts, i + 2, ctx)
    } else {
        Seq::empty()
    }
}

/// The positions of the `BEGIN` tokens of the blocks nested directly in
/// the body of a `ctx` block from `i` on, in order; only those named
/// `name` where it is given.
pub open spec fn children(ts: Seq<TokenView>, i: int, ctx: Ctx, name: Option<Seq<u8>>) -> Seq<int>
    decreases ts.len() - i,
{
    if !(0 <= i < ts.len()) {
        Seq::empty()
    } else if ts[i].token_type == TokenType::End {
        Seq::empty()
    } else if ts[i].token_type == TokenType::Begin {
        match nested_ok(ctx, ts[i].literal) {
            Some(k) => match block_end(ts, i, k) {
                Some(j) => if i < j <= ts.len() {
                    if name matches Some(n) && n != ts[i].literal {
                        children(ts, j, ctx, name)
                    } else {
                        seq![i] + children(ts, j, ctx, name)
                    }
                } else {
                    Seq::empty()
                },
                None => Seq::empty(),
            },
            None => Seq::empty(),
        }
    } else if line_ok(ctx, ts, i) {
        children(ts, i + 2, ctx, name)
    } else {
        Seq::empty()
    }
}

/// Where the reading of the body of a `ctx` block from `i` on stops: at
/// its `END` token, or at the first line or nested block that can't stand
/// there or doesn't read.
pub open spec fn body_stop(ts: Seq<TokenView>, i: int, ctx: Ctx) -> int
    decreases ts.len() - i,
{
    if !(0 <= i < ts.len()) {
        i
    } else if ts[i].token_type == TokenType::End {
        i
    } else if ts[i].token_type == TokenType::Begin {
        match nested_ok(ctx, ts[i].literal) {
            Some(k) => match block_end(ts, i, k) {
                Some(j) => if i < j <= ts.len() {
                    body_stop(ts, j, ctx)
                } else {
                    i
                },
                None => i,
            },
            None => i,
        }
    } else if line_ok(ctx, ts, i) {
        body_stop(ts, i + 2, ctx)
    } else {
        i
    }
}

/// Whether `name` is one of the sub-components that may be nested in some
/// component: `VALARM`, `STANDARD`, `DAYLIGHT` or `AVAILABLE`.
pub open spec fn sub_name(name: Seq<u8>) -> bool {
    name == "VALARM".spec_bytes() || name == "STANDARD".spec_bytes() || name == "DAYLIGHT".spec_bytes()
        || name == "AVAILABLE".spec_bytes()
}

/// Whether the reading of the body of the `ctx` block whose `BEGIN` is at
/// `s` stops at a `BEGIN` naming no sub-component at all.
pub open spec fn stray_begin(ts: Seq<TokenView>, s: int, ctx: Ctx) -> bool {
    let b = body_stop(ts, s + 2, ctx);
    &&& 0 <= b < ts.len()
    &&& ts[b].token_type == TokenType::Begin
    &&& !sub_name(ts[b].literal)
}

/// Where the run of components from `i` on stops: at the first token that
/// is not a `BEGIN`, or at the first component block that doesn't read.
pub open spec fn components_stop(ts: Seq<TokenView>, i: int) -> int
    decreases ts.len() - i,
{
    if !(0 <= i < ts.len()) {
        i
    } else if ts[i].token_type != TokenType::Begin {
        i
    } else {
        match block_end(ts, i, kind_named(ts[i].literal)) {
            Some(j) => if i < j <= ts.len() {
                components_stop(ts, j)
            } else {
                i
            },
            None => i,
        }
    }
}

/// Where the calendar's own property lines, from `i` on, give way to its
/// first component's `BEGIN`, if each of them parses.
pub open spec fn calendar_props_end(ts: Seq<TokenView>, i: int) -> Option<int>
    decreases ts.len() - i,
{
    if !(0 <= i < ts.len()) {
        None
    } else if ts[i].token_type == TokenType::Begin {
        Some(i)
    } else if line_at(ts, i) && Property::parses(ts[i].lexeme, ts[i].literal) {
        calendar_props_end(ts, i + 2)
    } else {
        None
    }
}

/// Where the run of components from `i` on gives way to a token that is
/// not a `BEGIN`, if each of them reads as a block of the kind its name
/// calls for.
pub open spec fn components_end(ts: Seq<TokenView>, i: int) -> Option<int>
    decreases ts.len() - i,
{
    if !(0 <= i < ts.len()) {
        None
    } else if ts[i].token_type != TokenType::Begin {
        Some(i)
    } else {
        match block_end(ts, i, kind_named(ts[i].literal)) {
            Some(j) => if i < j <= ts.len() {
                components_end(ts, j)
            } else {
                None
            },
            None => None,
        }
    }
}

/// The positions of the `BEGIN` tokens of the run of components from `i`
/// on, in order.
pub open spec fn component_starts(ts: Seq<TokenView>, i: int) -> Seq<int>
    decreases ts.len() - i,
{
    if !(0 <= i < ts.len()) {
        Seq::empty()
    } else if ts[i].token_type != TokenType::Begin {
        Seq::empty()
    } else {
        match block_end(ts, i, kind_named(ts[i].literal)) {
            Some(j) => if i < j <= ts.len() {
                seq![i] + component_starts(ts, j)
            } else {
                Seq::empty()
            },
            None => Seq::empty(),
        }
    }
}

/// Where the calendar object whose `BEGIN:VCALENDAR` token is at `pos`
/// ends, if it reads: `BEGIN:VCALENDAR` and a line break, its own property
/// lines, at least one component, then `END:VCALENDAR` and a line break,
/// which may be missing where the input ends.
pub open spec fn calendar_end(ts: Seq<TokenView>, pos: int) -> Option<int> {
    if 0 <= pos && pos + 1 < ts.len() && ts[pos].token_type == TokenType::Begin && ts[pos].literal
        == "VCALENDAR".spec_bytes() && ts[pos + 1].token_type == TokenType::Crlf {
        match calendar_props_end(ts, pos + 2) {
            Some(k) => match components_end(ts, k) {
                Some(m) => if m + 1 < ts.len() && ts[m].token_type == TokenType::End && ts[m].literal
                    == "VCALENDAR".spec_bytes() {
                    if ts[m + 1].token_type == TokenType::Eof {
                        Some(m + 1)
                    } else if ts[m + 1].token_type == TokenType::Crlf {
                        Some(m + 2)
                    } else {
                        None
                    }
                } else {
                    None
                },
                None => None,
            },
            None => None,
        }
    } else {
        None
    }
}

} // verus!
