//! Reads a token stream as calendar objects (RFC 5545 §3.4, §3.6): a
//! recursive descent over `BEGIN`/`END` blocks with one token of lookahead.
//! A property line is read by [`Property::parse`] and handed to the reader
//! of the component it stands in, whose `ingest` decides whether it may
//! stand there; a component's own rules are checked when its `END` is
//! reached.

use vstd::prelude::*;
use vstd::string::StringSliceAdditionalSpecFns;
use crate::ast::grammar::{
    body_stop, components_stop, lemma_block_end_after, stray_begin, sub_name, line_at, block_end, body_end, calendar_end, calendar_props_end, children, component_starts, components_end, kind_named, line_ok,
    line_positions, nested_ok, Ctx,
};
use crate::ast::lexer::{views, Token, TokenType, TokenView};
use crate::ast::property::Property;
use crate::bytes::{copy_range, eq_bytes, eq_str, lemma_str_bytes_differ};
use crate::calendar::{
    calendar_check, calendar_ingest, calendar_missing, calendar_parts_of, Calendar, CalendarParseBuilder, CalendarParseParts, Component,
};
use crate::properties::PropertyError;
use crate::components::alarm::{Alarm, AlarmParseBuilder};
use crate::components::availability::{Availability, AvailabilityParseBuilder, Available, AvailableParseBuilder};
use crate::components::event::{Event, EventParseBuilder};
use crate::components::free_busy::{FreeBusy, FreeBusyParseBuilder};
use crate::components::journal::{Journal, JournalParseBuilder};
use crate::components::timezone::{Timezone, TimezoneParseBuilder, TzProp, TzPropParseBuilder};
use crate::components::todo::{Todo, TodoParseBuilder};
use crate::components::unknown::UnknownComponent;
use crate::components::vlocation::{VLocation, VLocationParseBuilder};
use crate::properties::ParseError;
use crate::components::alarm::{alarm_check, alarm_missing, alarm_fold, alarm_parts_of, lemma_alarm_ingest_nested, AlarmParseParts};
use crate::components::availability::{
    availability_check, availability_missing, available_check, available_missing, availability_fold, availability_parts_of, available_fold, available_parts_of, lemma_availability_ingest_nested,
    AvailabilityParseParts, AvailableParseParts,
};
use crate::components::event::{event_check, event_missing, event_fold, event_parts_of, lemma_event_ingest_nested, EventParseParts};
use crate::components::free_busy::{free_busy_check, free_busy_missing, free_busy_fold, free_busy_parts_of, FreeBusyParseParts};
use crate::components::journal::{journal_check, journal_missing, journal_fold, journal_parts_of, JournalParseParts};
use crate::components::timezone::{
    timezone_check, timezone_missing, tzprop_check, tzprop_missing, lemma_timezone_ingest_nested, timezone_fold, timezone_parts_of, tzprop_fold, tzprop_parts_of, TimezoneParseParts,
    TzPropParseParts,
};
use crate::components::todo::{todo_check, todo_missing, lemma_todo_ingest_nested, todo_fold, todo_parts_of, TodoParseParts};
use crate::components::vlocation::{vlocation_missing, vlocation_fold, vlocation_parts_of, VLocationParseParts};
use crate::values::string_from_utf8;

verus! {

/// Whether the `VLOCATION` block of `ts` at `s` reads as `c`: its
/// properties are what every one of its property lines reads as, in order.
pub open spec fn location_read(ts: Seq<TokenView>, s: int, c: VLocation) -> bool {
    exists|props: Seq<Property>|
        #[trigger] lines_at(ts, line_positions(ts, s + 2, Ctx::Location), props) && (vlocation_fold(props) matches Ok(q)
            && c.parts() == vlocation_parts_of(q))
}

/// Whether the `AVAILABLE` block of `ts` at `s` reads as `c`.
pub open spec fn available_read(ts: Seq<TokenView>, s: int, c: Available) -> bool {
    exists|props: Seq<Property>|
        #[trigger] lines_at(ts, line_positions(ts, s + 2, Ctx::Available), props) && (available_fold(props) matches Ok(q)
            && c.parts() == available_parts_of(q))
}

/// Whether the `STANDARD` or `DAYLIGHT` block of `ts` at `s` reads as `c`.
pub open spec fn observance_read(ts: Seq<TokenView>, s: int, c: TzProp) -> bool {
    exists|props: Seq<Property>|
        #[trigger] lines_at(ts, line_positions(ts, s + 2, Ctx::Observance), props) && (tzprop_fold(props) matches Ok(q)
            && c.parts() == tzprop_parts_of(q))
}

/// Whether the `VALARM` block of `ts` at `s` reads as `c`: its properties
/// are what every one of its own property lines reads as, in order, and
/// its locations are what its nested blocks read as, in order.
pub open spec fn alarm_read(ts: Seq<TokenView>, s: int, c: Alarm) -> bool {
    &&& exists|props: Seq<Property>|
        #[trigger] lines_at(ts, line_positions(ts, s + 2, Ctx::Alarm), props) && (alarm_fold(props) matches Ok(q)
            && c.parts() == alarm_parts_of(AlarmParseParts { locations: c.parts().locations, ..q }))
    &&& locations_read(ts, children(ts, s + 2, Ctx::Alarm, None), c.parts().locations)
}

/// Whether the `VEVENT` block of `ts` at `s` reads as `c`: its properties
/// are what every one of its own property lines reads as, in order, and
/// its alarms are what its nested blocks read as, in order.
pub open spec fn event_read(ts: Seq<TokenView>, s: int, c: Event) -> bool {
    &&& exists|props: Seq<Property>|
        #[trigger] lines_at(ts, line_positions(ts, s + 2, Ctx::Event), props) && (event_fold(props) matches Ok(q)
            && c.parts() == event_parts_of(EventParseParts { alarms: c.parts().alarms, ..q }))
    &&& alarms_read(ts, children(ts, s + 2, Ctx::Event, None), c.parts().alarms)
}

/// Whether the `VTODO` block of `ts` at `s` reads as `c`.
pub open spec fn todo_read(ts: Seq<TokenView>, s: int, c: Todo) -> bool {
    &&& exists|props: Seq<Property>|
        #[trigger] lines_at(ts, line_positions(ts, s + 2, Ctx::Todo), props) && (todo_fold(props) matches Ok(q)
            && c.parts() == todo_parts_of(TodoParseParts { alarms: c.parts().alarms, ..q }))
    &&& alarms_read(ts, children(ts, s + 2, Ctx::Todo, None), c.parts().alarms)
}

/// Whether the `VJOURNAL` block of `ts` at `s` reads as `c`.
pub open spec fn journal_read(ts: Seq<TokenView>, s: int, c: Journal) -> bool {
    exists|props: Seq<Property>|
        #[trigger] lines_at(ts, line_positions(ts, s + 2, Ctx::Journal), props) && (journal_fold(props) matches Ok(q)
            && c.parts() == journal_parts_of(q))
}

/// Whether the `VFREEBUSY` block of `ts` at `s` reads as `c`.
pub open spec fn free_busy_read(ts: Seq<TokenView>, s: int, c: FreeBusy) -> bool {
    exists|props: Seq<Property>|
        #[trigger] lines_at(ts, line_positions(ts, s + 2, Ctx::FreeBusy), props) && (free_busy_fold(props) matches Ok(q)
            && c.parts() == free_busy_parts_of(q))
}

/// Whether the `VTIMEZONE` block of `ts` at `s` reads as `c`: its
/// standard and daylight observances are what its nested `STANDARD` and
/// `DAYLIGHT` blocks read as, each in order.
pub open spec fn timezone_read(ts: Seq<TokenView>, s: int, c: Timezone) -> bool {
    &&& exists|props: Seq<Property>|
        #[trigger] lines_at(ts, line_positions(ts, s + 2, Ctx::Timezone), props) && (timezone_fold(props) matches Ok(q)
            && c.parts() == timezone_parts_of(TimezoneParseParts { standardc: c.parts().standardc, daylightc: c.parts().daylightc, ..q }))
    &&& observances_read(ts, children(ts, s + 2, Ctx::Timezone, Some("STANDARD".spec_bytes())), c.parts().standardc)
    &&& observances_read(ts, children(ts, s + 2, Ctx::Timezone, Some("DAYLIGHT".spec_bytes())), c.parts().daylightc)
}

/// Whether the `VAVAILABILITY` block of `ts` at `s` reads as `c`.
pub open spec fn availability_read(ts: Seq<TokenView>, s: int, c: Availability) -> bool {
    &&& exists|props: Seq<Property>|
        #[trigger] lines_at(ts, line_positions(ts, s + 2, Ctx::Availability), props) && (availability_fold(props) matches Ok(q)
            && c.parts() == availability_parts_of(AvailabilityParseParts { available: c.parts().available, ..q }))
    &&& availables_read(ts, children(ts, s + 2, Ctx::Availability, None), c.parts().available)
}

/// Whether the texts `ls` are those of the property lines of `ts` at
/// `positions`, in order: each its name and the rest of its line.
pub open spec fn texts_at(ts: Seq<TokenView>, positions: Seq<int>, ls: Seq<Seq<char>>) -> bool {
    &&& positions.len() == ls.len()
    &&& forall|i: int| 0 <= i < positions.len() ==> 0 <= #[trigger] positions[i] < ts.len()
    &&& forall|i: int| 0 <= i < ls.len() ==> (vstd::utf8::encode_utf8(#[trigger] ls[i]) == (ts[positions[i]].lexeme + ts[positions[i]].literal))
}

/// Texts read line by line are the texts of those lines.
pub proof fn lemma_texts_at_intro(ts: Seq<TokenView>, positions: Seq<int>, ls: Seq<Seq<char>>)
    requires
        positions.len() == ls.len(),
        forall|i: int| 0 <= i < positions.len() ==> 0 <= #[trigger] positions[i] < ts.len(),
        forall|i: int| 0 <= i < ls.len() ==> (vstd::utf8::encode_utf8(#[trigger] ls[i]) == (ts[positions[i]].lexeme + ts[positions[i]].literal)),
    ensures
        texts_at(ts, positions, ls),
{
}

/// Whether the block of `ts` at `s`, of a kind this crate doesn't model,
/// reads as `u`: its name is the one after `BEGIN`, its lines are the
/// texts of every one of its own property lines, in order, and its nested
/// components are what its nested blocks read as, in order.
pub open spec fn unknown_read(ts: Seq<TokenView>, s: int, u: UnknownComponent) -> bool
    decreases ts.len() - s,
{
    if 0 <= s < ts.len() {
        let kids = children(ts, s + 2, Ctx::Other, None);
        &&& vstd::utf8::encode_utf8(u.spec_name()) == ts[s].literal
        &&& texts_at(ts, line_positions(ts, s + 2, Ctx::Other), u.spec_lines())
        &&& kids.len() == u.spec_components().len()
        &&& forall|i: int| 0 <= i < kids.len() ==> s < #[trigger] kids[i] <= ts.len() && unknown_read(ts, kids[i], u.spec_components()[i])
    } else {
        false
    }
}

/// Whether the component block of `ts` at `s` reads as `c`: of the kind
/// its `BEGIN` names, read as that kind is read.
pub open spec fn component_read(ts: Seq<TokenView>, s: int, c: Component) -> bool {
    0 <= s < ts.len() && match c {
        Component::Event(x) => kind_named(ts[s].literal) is Event && event_read(ts, s, x),
        Component::Todo(x) => kind_named(ts[s].literal) is Todo && todo_read(ts, s, x),
        Component::Journal(x) => kind_named(ts[s].literal) is Journal && journal_read(ts, s, x),
        Component::FreeBusy(x) => kind_named(ts[s].literal) is FreeBusy && free_busy_read(ts, s, x),
        Component::Timezone(x) => kind_named(ts[s].literal) is Timezone && timezone_read(ts, s, x),
        Component::Availability(x) => kind_named(ts[s].literal) is Availability && availability_read(ts, s, x),
        Component::Unknown(u) => kind_named(ts[s].literal) is Other && unknown_read(ts, s, u),
    }
}

/// Whether the locations `cs` are what the blocks of `ts` at `starts` read
/// as, one for one, in order.
pub open spec fn locations_read(ts: Seq<TokenView>, starts: Seq<int>, cs: Seq<VLocation>) -> bool {
    &&& starts.len() == cs.len()
    &&& forall|i: int| 0 <= i < cs.len() ==> location_read(ts, starts[i], #[trigger] cs[i])
}

/// One more block read, after the others.
pub proof fn lemma_locations_read_push(ts: Seq<TokenView>, starts: Seq<int>, cs: Seq<VLocation>, at: int, c: VLocation)
    requires
        locations_read(ts, starts, cs),
        location_read(ts, at, c),
    ensures
        locations_read(ts, starts.push(at), cs.push(c)),
{
    assert forall|i: int| 0 <= i < cs.push(c).len() implies location_read(ts, starts.push(at)[i], #[trigger] cs.push(c)[i]) by {
        if i < cs.len() {
            assert(cs.push(c)[i] == cs[i]);
            assert(starts.push(at)[i] == starts[i]);
        }
    }
}

/// Whether the alarms `cs` are what the blocks of `ts` at `starts` read
/// as, one for one, in order.
pub open spec fn alarms_read(ts: Seq<TokenView>, starts: Seq<int>, cs: Seq<Alarm>) -> bool {
    &&& starts.len() == cs.len()
    &&& forall|i: int| 0 <= i < cs.len() ==> alarm_read(ts, starts[i], #[trigger] cs[i])
}

/// One more block read, after the others.
pub proof fn lemma_alarms_read_push(ts: Seq<TokenView>, starts: Seq<int>, cs: Seq<Alarm>, at: int, c: Alarm)
    requires
        alarms_read(ts, starts, cs),
        alarm_read(ts, at, c),
    ensures
        alarms_read(ts, starts.push(at), cs.push(c)),
{
    assert forall|i: int| 0 <= i < cs.push(c).len() implies alarm_read(ts, starts.push(at)[i], #[trigger] cs.push(c)[i]) by {
        if i < cs.len() {
            assert(cs.push(c)[i] == cs[i]);
            assert(starts.push(at)[i] == starts[i]);
        }
    }
}

/// Whether the observances `cs` are what the blocks of `ts` at `starts` read
/// as, one for one, in order.
pub open spec fn observances_read(ts: Seq<TokenView>, starts: Seq<int>, cs: Seq<TzProp>) -> bool {
    &&& starts.len() == cs.len()
    &&& forall|i: int| 0 <= i < cs.len() ==> observance_read(ts, starts[i], #[trigger] cs[i])
}

/// One more block read, after the others.
pub proof fn lemma_observances_read_push(ts: Seq<TokenView>, starts: Seq<int>, cs: Seq<TzProp>, at: int, c: TzProp)
    requires
        observances_read(ts, starts, cs),
        observance_read(ts, at, c),
    ensures
        observances_read(ts, starts.push(at), cs.push(c)),
{
    assert forall|i: int| 0 <= i < cs.push(c).len() implies observance_read(ts, starts.push(at)[i], #[trigger] cs.push(c)[i]) by {
        if i < cs.len() {
            assert(cs.push(c)[i] == cs[i]);
            assert(starts.push(at)[i] == starts[i]);
        }
    }
}

/// Whether the available blocks `cs` are what the blocks of `ts` at `starts` read
/// as, one for one, in order.
pub open spec fn availables_read(ts: Seq<TokenView>, starts: Seq<int>, cs: Seq<Available>) -> bool {
    &&& starts.len() == cs.len()
    &&& forall|i: int| 0 <= i < cs.len() ==> available_read(ts, starts[i], #[trigger] cs[i])
}

/// One more block read, after the others.
pub proof fn lemma_availables_read_push(ts: Seq<TokenView>, starts: Seq<int>, cs: Seq<Available>, at: int, c: Available)
    requires
        availables_read(ts, starts, cs),
        available_read(ts, at, c),
    ensures
        availables_read(ts, starts.push(at), cs.push(c)),
{
    assert forall|i: int| 0 <= i < cs.push(c).len() implies available_read(ts, starts.push(at)[i], #[trigger] cs.push(c)[i]) by {
        if i < cs.len() {
            assert(cs.push(c)[i] == cs[i]);
            assert(starts.push(at)[i] == starts[i]);
        }
    }
}

/// Whether the components `cs` are what the blocks of `ts` at `starts` read
/// as, one for one, in order.
pub open spec fn components_read(ts: Seq<TokenView>, starts: Seq<int>, cs: Seq<Component>) -> bool {
    &&& starts.len() == cs.len()
    &&& forall|i: int| 0 <= i < cs.len() ==> component_read(ts, starts[i], #[trigger] cs[i])
}

/// One more block read, after the others.
pub proof fn lemma_components_read_push(ts: Seq<TokenView>, starts: Seq<int>, cs: Seq<Component>, at: int, c: Component)
    requires
        components_read(ts, starts, cs),
        component_read(ts, at, c),
    ensures
        components_read(ts, starts.push(at), cs.push(c)),
{
    assert forall|i: int| 0 <= i < cs.push(c).len() implies component_read(ts, starts.push(at)[i], #[trigger] cs.push(c)[i]) by {
        if i < cs.len() {
            assert(cs.push(c)[i] == cs[i]);
            assert(starts.push(at)[i] == starts[i]);
        }
    }
}

/// Whether the calendar object of `ts` at `pos` reads as `c`: its own
/// properties are what every property line before its first component
/// reads as, in order, and its components are what the run of component
/// blocks after them reads as, in order.
pub open spec fn calendar_read(ts: Seq<TokenView>, pos: int, c: Calendar) -> bool {
    exists|props: Seq<Property>|
        #[trigger] lines_read(ts, pos + 2, props) && calendar_props_end(ts, pos + 2) == Some(pos + 2 + 2 * props.len())
            && (calendar_fold(props) matches Ok(q) && c.parts() == calendar_parts_of(CalendarParseParts { components: c.parts().components, ..q }))
            && components_read(ts, component_starts(ts, pos + 2 + 2 * props.len()), c.parts().components)
}

/// Whether the `VLOCATION` block of `ts` at `s` reads whatever its property
/// lines read as: its shape reads, every run of its first property lines
/// is accepted one after another, its nested blocks read, and what it
/// reads as passes its own checks.
pub open spec fn location_sound(ts: Seq<TokenView>, s: int) -> bool {
    let lp = line_positions(ts, s + 2, Ctx::Location);
    &&& 0 <= s < ts.len()
    &&& ts[s].literal == "VLOCATION".spec_bytes()
    &&& block_end(ts, s, Ctx::Location) is Some
    &&& forall|props: Seq<Property>| props.len() <= lp.len() && #[trigger] lines_at(ts, lp.take(props.len() as int), props) ==> vlocation_fold(props) is Ok
    &&& forall|props: Seq<Property>| #[trigger] lines_at(ts, lp, props) ==> (vlocation_fold(props) matches Ok(q)
        && vlocation_missing(q) is None)
}
/// Whether the `AVAILABLE` block of `ts` at `s` reads whatever its property
/// lines read as: its shape reads, every run of its first property lines
/// is accepted one after another, its nested blocks read, and what it
/// reads as passes its own checks.
pub open spec fn available_sound(ts: Seq<TokenView>, s: int) -> bool {
    let lp = line_positions(ts, s + 2, Ctx::Available);
    &&& 0 <= s < ts.len()
    &&& ts[s].literal == "AVAILABLE".spec_bytes()
    &&& block_end(ts, s, Ctx::Available) is Some
    &&& forall|props: Seq<Property>| props.len() <= lp.len() && #[trigger] lines_at(ts, lp.take(props.len() as int), props) ==> available_fold(props) is Ok
    &&& forall|props: Seq<Property>| #[trigger] lines_at(ts, lp, props) ==> (available_fold(props) matches Ok(q)
        && available_missing(q) is None && available_check(available_parts_of(q)) is Ok)
}
/// Whether the `STANDARD` or `DAYLIGHT` block of `ts` at `s` reads whatever its property
/// lines read as: its shape reads, every run of its first property lines
/// is accepted one after another, its nested blocks read, and what it
/// reads as passes its own checks.
pub open spec fn observance_sound(ts: Seq<TokenView>, s: int) -> bool {
    let lp = line_positions(ts, s + 2, Ctx::Observance);
    &&& 0 <= s < ts.len()
    &&& ts[s].literal == "STANDARD".spec_bytes() || ts[s].literal == "DAYLIGHT".spec_bytes()
    &&& block_end(ts, s, Ctx::Observance) is Some
    &&& forall|props: Seq<Property>| props.len() <= lp.len() && #[trigger] lines_at(ts, lp.take(props.len() as int), props) ==> tzprop_fold(props) is Ok
    &&& forall|props: Seq<Property>| #[trigger] lines_at(ts, lp, props) ==> (tzprop_fold(props) matches Ok(q)
        && tzprop_missing(q) is None && tzprop_check(tzprop_parts_of(q)) is Ok)
}
/// Whether the `VALARM` block of `ts` at `s` reads whatever its property
/// lines read as: its shape reads, every run of its first property lines
/// is accepted one after another, its nested blocks read, and what it
/// reads as passes its own checks.
pub open spec fn alarm_sound(ts: Seq<TokenView>, s: int) -> bool {
    let lp = line_positions(ts, s + 2, Ctx::Alarm);
    let kids = children(ts, s + 2, Ctx::Alarm, None);
    &&& 0 <= s < ts.len()
    &&& ts[s].literal == "VALARM".spec_bytes()
    &&& block_end(ts, s, Ctx::Alarm) is Some
    &&& forall|props: Seq<Property>| props.len() <= lp.len() && #[trigger] lines_at(ts, lp.take(props.len() as int), props) ==> alarm_fold(props) is Ok
    &&& forall|i: int| 0 <= i < kids.len() ==> location_sound(ts, #[trigger] kids[i])
    &&& forall|props: Seq<Property>, locations: Seq<VLocation>| #[trigger] lines_at(ts, lp, props) && #[trigger] locations_read(ts, children(ts, s + 2, Ctx::Alarm, None), locations) ==> (alarm_fold(props) matches Ok(q)
        && alarm_missing(AlarmParseParts { locations: locations, ..q }) is None && alarm_check(alarm_parts_of(AlarmParseParts { locations: locations, ..q })) is Ok)
}
/// Whether the `VEVENT` block of `ts` at `s` reads whatever its property
/// lines read as: its shape reads, every run of its first property lines
/// is accepted one after another, its nested blocks read, and what it
/// reads as passes its own checks.
pub open spec fn event_sound(ts: Seq<TokenView>, s: int, has_method: bool) -> bool {
    let lp = line_positions(ts, s + 2, Ctx::Event);
    let kids = children(ts, s + 2, Ctx::Event, None);
    &&& 0 <= s < ts.len()
    &&& block_end(ts, s, Ctx::Event) is Some
    &&& forall|props: Seq<Property>| props.len() <= lp.len() && #[trigger] lines_at(ts, lp.take(props.len() as int), props) ==> event_fold(props) is Ok
    &&& forall|i: int| 0 <= i < kids.len() ==> alarm_sound(ts, #[trigger] kids[i])
    &&& forall|props: Seq<Property>, alarms: Seq<Alarm>| #[trigger] lines_at(ts, lp, props) && #[trigger] alarms_read(ts, children(ts, s + 2, Ctx::Event, None), alarms) ==> (event_fold(props) matches Ok(q)
        && event_missing(EventParseParts { alarms: alarms, ..q }) is None && event_check(event_parts_of(EventParseParts { alarms: alarms, ..q }), has_method) is Ok)
}
/// Whether the `VTODO` block of `ts` at `s` reads whatever its property
/// lines read as: its shape reads, every run of its first property lines
/// is accepted one after another, its nested blocks read, and what it
/// reads as passes its own checks.
pub open spec fn todo_sound(ts: Seq<TokenView>, s: int) -> bool {
    let lp = line_positions(ts, s + 2, Ctx::Todo);
    let kids = children(ts, s + 2, Ctx::Todo, None);
    &&& 0 <= s < ts.len()
    &&& block_end(ts, s, Ctx::Todo) is Some
    &&& forall|props: Seq<Property>| props.len() <= lp.len() && #[trigger] lines_at(ts, lp.take(props.len() as int), props) ==> todo_fold(props) is Ok
    &&& forall|i: int| 0 <= i < kids.len() ==> alarm_sound(ts, #[trigger] kids[i])
    &&& forall|props: Seq<Property>, alarms: Seq<Alarm>| #[trigger] lines_at(ts, lp, props) && #[trigger] alarms_read(ts, children(ts, s + 2, Ctx::Todo, None), alarms) ==> (todo_fold(props) matches Ok(q)
        && todo_missing(TodoParseParts { alarms: alarms, ..q }) is None && todo_check(todo_parts_of(TodoParseParts { alarms: alarms, ..q })) is Ok)
}
/// Whether the `VJOURNAL` block of `ts` at `s` reads whatever its property
/// lines read as: its shape reads, every run of its first property lines
/// is accepted one after another, its nested blocks read, and what it
/// reads as passes its own checks.
pub open spec fn journal_sound(ts: Seq<TokenView>, s: int) -> bool {
    let lp = line_positions(ts, s + 2, Ctx::Journal);
    &&& 0 <= s < ts.len()
    &&& block_end(ts, s, Ctx::Journal) is Some
    &&& forall|props: Seq<Property>| props.len() <= lp.len() && #[trigger] lines_at(ts, lp.take(props.len() as int), props) ==> journal_fold(props) is Ok
    &&& forall|props: Seq<Property>| #[trigger] lines_at(ts, lp, props) ==> (journal_fold(props) matches Ok(q)
        && journal_missing(q) is None && journal_check(journal_parts_of(q)) is Ok)
}
/// Whether the `VFREEBUSY` block of `ts` at `s` reads whatever its property
/// lines read as: its shape reads, every run of its first property lines
/// is accepted one after another, its nested blocks read, and what it
/// reads as passes its own checks.
pub open spec fn free_busy_sound(ts: Seq<TokenView>, s: int) -> bool {
    let lp = line_positions(ts, s + 2, Ctx::FreeBusy);
    &&& 0 <= s < ts.len()
    &&& block_end(ts, s, Ctx::FreeBusy) is Some
    &&& forall|props: Seq<Property>| props.len() <= lp.len() && #[trigger] lines_at(ts, lp.take(props.len() as int), props) ==> free_busy_fold(props) is Ok
    &&& forall|props: Seq<Property>| #[trigger] lines_at(ts, lp, props) ==> (free_busy_fold(props) matches Ok(q)
        && free_busy_missing(q) is None && free_busy_check(free_busy_parts_of(q)) is Ok)
}
/// Whether the `VTIMEZONE` block of `ts` at `s` reads whatever its property
/// lines read as: its shape reads, every run of its first property lines
/// is accepted one after another, its nested blocks read, and what it
/// reads as passes its own checks.
pub open spec fn timezone_sound(ts: Seq<TokenView>, s: int) -> bool {
    let lp = line_positions(ts, s + 2, Ctx::Timezone);
    let kids = children(ts, s + 2, Ctx::Timezone, None);
    &&& 0 <= s < ts.len()
    &&& block_end(ts, s, Ctx::Timezone) is Some
    &&& forall|props: Seq<Property>| props.len() <= lp.len() && #[trigger] lines_at(ts, lp.take(props.len() as int), props) ==> timezone_fold(props) is Ok
    &&& forall|i: int| 0 <= i < kids.len() ==> observance_sound(ts, #[trigger] kids[i])
    &&& forall|props: Seq<Property>, standardc: Seq<TzProp>, daylightc: Seq<TzProp>| #[trigger] lines_at(ts, lp, props) && #[trigger] observances_read(ts, children(ts, s + 2, Ctx::Timezone, Some("STANDARD".spec_bytes())), standardc) && #[trigger] observances_read(ts, children(ts, s + 2, Ctx::Timezone, Some("DAYLIGHT".spec_bytes())), daylightc) ==> (timezone_fold(props) matches Ok(q)
        && timezone_missing(TimezoneParseParts { standardc: standardc, daylightc: daylightc, ..q }) is None && timezone_check(timezone_parts_of(TimezoneParseParts { standardc: standardc, daylightc: daylightc, ..q })) is Ok)
}
/// Whether the `VAVAILABILITY` block of `ts` at `s` reads whatever its property
/// lines read as: its shape reads, every run of its first property lines
/// is accepted one after another, its nested blocks read, and what it
/// reads as passes its own checks.
pub open spec fn availability_sound(ts: Seq<TokenView>, s: int) -> bool {
    let lp = line_positions(ts, s + 2, Ctx::Availability);
    let kids = children(ts, s + 2, Ctx::Availability, None);
    &&& 0 <= s < ts.len()
    &&& block_end(ts, s, Ctx::Availability) is Some
    &&& forall|props: Seq<Property>| props.len() <= lp.len() && #[trigger] lines_at(ts, lp.take(props.len() as int), props) ==> availability_fold(props) is Ok
    &&& forall|i: int| 0 <= i < kids.len() ==> available_sound(ts, #[trigger] kids[i])
    &&& forall|props: Seq<Property>, available: Seq<Available>| #[trigger] lines_at(ts, lp, props) && #[trigger] availables_read(ts, children(ts, s + 2, Ctx::Availability, None), available) ==> (availability_fold(props) matches Ok(q)
        && availability_missing(AvailabilityParseParts { available: available, ..q }) is None && availability_check(availability_parts_of(AvailabilityParseParts { available: available, ..q })) is Ok)
}
/// Whether the `VEVENT` block of `ts` at `s` reads whatever its property
/// lines read as, as far as its body reads: every run of its first
/// property lines is accepted one after another, and its nested blocks
/// read.
pub open spec fn event_body_sound(ts: Seq<TokenView>, s: int) -> bool {
    let lp = line_positions(ts, s + 2, Ctx::Event);
    let kids = children(ts, s + 2, Ctx::Event, None);
    &&& 0 <= s < ts.len()
    &&& forall|props: Seq<Property>| props.len() <= lp.len() && #[trigger] lines_at(ts, lp.take(props.len() as int), props) ==> event_fold(props) is Ok
    &&& forall|i: int| 0 <= i < kids.len() ==> alarm_sound(ts, #[trigger] kids[i])
}

/// Whether the `VTODO` block of `ts` at `s` reads whatever its property
/// lines read as, as far as its body reads: every run of its first
/// property lines is accepted one after another, and its nested blocks
/// read.
pub open spec fn todo_body_sound(ts: Seq<TokenView>, s: int) -> bool {
    let lp = line_positions(ts, s + 2, Ctx::Todo);
    let kids = children(ts, s + 2, Ctx::Todo, None);
    &&& 0 <= s < ts.len()
    &&& forall|props: Seq<Property>| props.len() <= lp.len() && #[trigger] lines_at(ts, lp.take(props.len() as int), props) ==> todo_fold(props) is Ok
    &&& forall|i: int| 0 <= i < kids.len() ==> alarm_sound(ts, #[trigger] kids[i])
}

/// Whether the `VJOURNAL` block of `ts` at `s` reads whatever its property
/// lines read as, as far as its body reads: every run of its first
/// property lines is accepted one after another, and its nested blocks
/// read.
pub open spec fn journal_body_sound(ts: Seq<TokenView>, s: int) -> bool {
    let lp = line_positions(ts, s + 2, Ctx::Journal);
    &&& 0 <= s < ts.len()
    &&& forall|props: Seq<Property>| props.len() <= lp.len() && #[trigger] lines_at(ts, lp.take(props.len() as int), props) ==> journal_fold(props) is Ok
}

/// Whether the `VFREEBUSY` block of `ts` at `s` reads whatever its property
/// lines read as, as far as its body reads: every run of its first
/// property lines is accepted one after another, and its nested blocks
/// read.
pub open spec fn free_busy_body_sound(ts: Seq<TokenView>, s: int) -> bool {
    let lp = line_positions(ts, s + 2, Ctx::FreeBusy);
    &&& 0 <= s < ts.len()
    &&& forall|props: Seq<Property>| props.len() <= lp.len() && #[trigger] lines_at(ts, lp.take(props.len() as int), props) ==> free_busy_fold(props) is Ok
}

/// Whether the `VTIMEZONE` block of `ts` at `s` reads whatever its property
/// lines read as, as far as its body reads: every run of its first
/// property lines is accepted one after another, and its nested blocks
/// read.
pub open spec fn timezone_body_sound(ts: Seq<TokenView>, s: int) -> bool {
    let lp = line_positions(ts, s + 2, Ctx::Timezone);
    let kids = children(ts, s + 2, Ctx::Timezone, None);
    &&& 0 <= s < ts.len()
    &&& forall|props: Seq<Property>| props.len() <= lp.len() && #[trigger] lines_at(ts, lp.take(props.len() as int), props) ==> timezone_fold(props) is Ok
    &&& forall|i: int| 0 <= i < kids.len() ==> observance_sound(ts, #[trigger] kids[i])
}

/// Whether the `VAVAILABILITY` block of `ts` at `s` reads whatever its property
/// lines read as, as far as its body reads: every run of its first
/// property lines is accepted one after another, and its nested blocks
/// read.
pub open spec fn availability_body_sound(ts: Seq<TokenView>, s: int) -> bool {
    let lp = line_positions(ts, s + 2, Ctx::Availability);
    let kids = children(ts, s + 2, Ctx::Availability, None);
    &&& 0 <= s < ts.len()
    &&& forall|props: Seq<Property>| props.len() <= lp.len() && #[trigger] lines_at(ts, lp.take(props.len() as int), props) ==> availability_fold(props) is Ok
    &&& forall|i: int| 0 <= i < kids.len() ==> available_sound(ts, #[trigger] kids[i])
}

/// Whether the component block of `ts` at `s` is of a kind this crate
/// models, reads as far as its body reads, and its body stops at a
/// `BEGIN` naming no sub-component at all.
pub open spec fn component_stray(ts: Seq<TokenView>, s: int) -> bool {
    &&& 0 <= s && s + 1 < ts.len()
    &&& ts[s].token_type == TokenType::Begin
    &&& ts[s + 1].token_type == TokenType::Crlf
    &&& match kind_named(ts[s].literal) {
        Ctx::Event => event_body_sound(ts, s) && stray_begin(ts, s, Ctx::Event),
        Ctx::Todo => todo_body_sound(ts, s) && stray_begin(ts, s, Ctx::Todo),
        Ctx::Journal => journal_body_sound(ts, s) && stray_begin(ts, s, Ctx::Journal),
        Ctx::FreeBusy => free_busy_body_sound(ts, s) && stray_begin(ts, s, Ctx::FreeBusy),
        Ctx::Timezone => timezone_body_sound(ts, s) && stray_begin(ts, s, Ctx::Timezone),
        Ctx::Availability => availability_body_sound(ts, s) && stray_begin(ts, s, Ctx::Availability),
        _ => false,
    }
}

/// Whether the component block of `ts` at `s` is of a kind this crate
/// doesn't model, its body reads, and the `END` its body reaches names
/// another block.
pub open spec fn component_mismatched(ts: Seq<TokenView>, s: int) -> bool {
    &&& 0 <= s && s + 1 < ts.len()
    &&& ts[s].token_type == TokenType::Begin
    &&& kind_named(ts[s].literal) is Other
    &&& ts[s + 1].token_type == TokenType::Crlf
    &&& body_end(ts, s + 2, Ctx::Other) matches Some(k) && ts[k].literal != ts[s].literal
}

/// Whether the component block of `ts` at `s` reads whatever its lines
/// read as, as the kind its `BEGIN` names; `has_method` tells whether the
/// calendar it stands in has a `METHOD`.
pub open spec fn component_sound(ts: Seq<TokenView>, s: int, has_method: bool) -> bool {
    0 <= s < ts.len() && match kind_named(ts[s].literal) {
        Ctx::Event => event_sound(ts, s, has_method),
        Ctx::Todo => todo_sound(ts, s),
        Ctx::Journal => journal_sound(ts, s),
        Ctx::FreeBusy => free_busy_sound(ts, s),
        Ctx::Timezone => timezone_sound(ts, s),
        Ctx::Availability => availability_sound(ts, s),
        _ => block_end(ts, s, Ctx::Other) is Some,
    }
}

/// Whether the calendar object of `ts` at `pos` reads whatever its lines
/// read as, as far as its run of components reads: it starts with
/// `BEGIN:VCALENDAR` and a line break, its own property lines have their
/// shape, every run of its first own property lines is accepted one after
/// another, and each component of the run reads.
pub open spec fn calendar_head_sound(ts: Seq<TokenView>, pos: int) -> bool {
    let k = calendar_props_end(ts, pos + 2)->0;
    let n = (k - pos - 2) / 2;
    let starts = component_starts(ts, k);
    &&& 0 <= pos && pos + 1 < ts.len()
    &&& ts[pos].token_type == TokenType::Begin && ts[pos].literal == "VCALENDAR".spec_bytes()
    &&& ts[pos + 1].token_type == TokenType::Crlf
    &&& calendar_props_end(ts, pos + 2) is Some
    &&& forall|props: Seq<Property>| props.len() <= n && #[trigger] lines_read(ts, pos + 2, props) ==> calendar_fold(props) is Ok
    &&& forall|props: Seq<Property>| #[trigger] lines_read(ts, pos + 2, props) && props.len() == n ==> (calendar_fold(props) matches Ok(q)
        && forall|i: int| 0 <= i < starts.len() ==> component_sound(ts, #[trigger] starts[i], q.method is Some))
}

/// Whether the calendar object of `ts` at `pos` reads whatever its lines
/// read as up to its closing `END`: it reads as far as its run of
/// components reads, and that run has its shape.
pub open spec fn calendar_body_sound(ts: Seq<TokenView>, pos: int) -> bool {
    &&& calendar_head_sound(ts, pos)
    &&& components_end(ts, calendar_props_end(ts, pos + 2)->0) is Some
}

/// Whether the calendar object of `ts` at `pos` reads whatever its lines
/// read as: it reads up to its closing `END`, its shape reads through its
/// end, and what it reads as passes the checks a
/// [`crate::calendar::CalendarBuilder`] makes.
pub open spec fn calendar_sound(ts: Seq<TokenView>, pos: int) -> bool {
    let k = calendar_props_end(ts, pos + 2)->0;
    let n = (k - pos - 2) / 2;
    let starts = component_starts(ts, k);
    &&& calendar_body_sound(ts, pos)
    &&& calendar_end(ts, pos) is Some
    &&& forall|props: Seq<Property>, comps: Seq<Component>| #[trigger] lines_read(ts, pos + 2, props) && props.len() == n
        && #[trigger] components_read(ts, starts, comps) ==> (calendar_fold(props) matches Ok(q)
        && calendar_missing(CalendarParseParts { components: comps, ..q }) is None
        && calendar_check(calendar_parts_of(CalendarParseParts { components: comps, ..q })) is Ok)
}

/// The names of the sub-components differ from one another.
pub proof fn lemma_nested_names_differ()
    ensures
        "VALARM".spec_bytes() != "STANDARD".spec_bytes(),
        "VALARM".spec_bytes() != "DAYLIGHT".spec_bytes(),
        "VALARM".spec_bytes() != "AVAILABLE".spec_bytes(),
        "VALARM".spec_bytes() != "VLOCATION".spec_bytes(),
        "STANDARD".spec_bytes() != "DAYLIGHT".spec_bytes(),
        "STANDARD".spec_bytes() != "AVAILABLE".spec_bytes(),
        "STANDARD".spec_bytes() != "VLOCATION".spec_bytes(),
        "DAYLIGHT".spec_bytes() != "AVAILABLE".spec_bytes(),
        "DAYLIGHT".spec_bytes() != "VLOCATION".spec_bytes(),
        "AVAILABLE".spec_bytes() != "VLOCATION".spec_bytes(),
{
    reveal_strlit("VALARM");
    reveal_strlit("STANDARD");
    reveal_strlit("DAYLIGHT");
    reveal_strlit("AVAILABLE");
    reveal_strlit("VLOCATION");
    lemma_str_bytes_differ("VALARM", "STANDARD", 0);
    lemma_str_bytes_differ("VALARM", "DAYLIGHT", 0);
    lemma_str_bytes_differ("VALARM", "AVAILABLE", 0);
    lemma_str_bytes_differ("VALARM", "VLOCATION", 0);
    lemma_str_bytes_differ("STANDARD", "DAYLIGHT", 0);
    lemma_str_bytes_differ("STANDARD", "AVAILABLE", 0);
    lemma_str_bytes_differ("STANDARD", "VLOCATION", 0);
    lemma_str_bytes_differ("DAYLIGHT", "AVAILABLE", 0);
    lemma_str_bytes_differ("DAYLIGHT", "VLOCATION", 0);
    lemma_str_bytes_differ("AVAILABLE", "VLOCATION", 0);
}

/// The calendar's own property lines end no earlier than where they're
/// looked for.
pub proof fn lemma_props_end_after(ts: Seq<TokenView>, i: int)
    ensures
        calendar_props_end(ts, i) matches Some(k) ==> i <= k,
    decreases ts.len() - i,
{
    if 0 <= i < ts.len() && ts[i].token_type != TokenType::Begin && line_at(ts, i) && Property::parses(ts[i].lexeme, ts[i].literal) {
        lemma_props_end_after(ts, i + 2);
    }
}

/// Whether the tokens of `ts` from `from` on are calendar objects back to
/// back, each of which reads whatever its lines read as, up to the end of
/// the input.
pub open spec fn stream_sound(ts: Seq<TokenView>, from: int) -> bool
    decreases ts.len() - from,
{
    if 0 <= from < ts.len() && ts[from].token_type == TokenType::Eof {
        true
    } else {
        calendar_sound(ts, from) && match calendar_end(ts, from) {
            Some(e) => from < e <= ts.len() && stream_sound(ts, e),
            None => false,
        }
    }
}

/// Whether `cs` are the calendar objects of `ts` from `from` up to `to`,
/// back to back, in order.
pub open spec fn stream_read(ts: Seq<TokenView>, from: int, to: int, cs: Seq<Calendar>) -> bool
    decreases cs.len(),
{
    if cs.len() == 0 {
        from == to
    } else {
        calendar_end(ts, from) matches Some(e) && calendar_read(ts, from, cs[0]) && stream_read(ts, e, to, cs.skip(1))
    }
}

/// One more calendar object read, after the others.
pub proof fn lemma_stream_read_push(ts: Seq<TokenView>, from: int, to: int, cs: Seq<Calendar>, e: int, c: Calendar)
    requires
        stream_read(ts, from, to, cs),
        calendar_end(ts, to) == Some(e),
        calendar_read(ts, to, c),
    ensures
        stream_read(ts, from, e, cs.push(c)),
    decreases cs.len(),
{
    if cs.len() == 0 {
        assert(cs.push(c).skip(1) =~= Seq::<Calendar>::empty());
        assert(cs.push(c)[0] == c);
        assert(stream_read(ts, e, e, cs.push(c).skip(1)));
    } else {
        let e0 = calendar_end(ts, from)->0;
        lemma_stream_read_push(ts, e0, to, cs.skip(1), e, c);
        assert(cs.push(c).skip(1) =~= cs.skip(1).push(c));
        assert(cs.push(c)[0] == cs[0]);
        assert(stream_read(ts, e0, e, cs.push(c).skip(1)));
    }
}

/// Whether the token at `at` is a property line, followed by a line break,
/// that reads as `p`.
pub open spec fn line_read(ts: Seq<TokenView>, at: int, p: Property) -> bool {
    &&& 0 <= at
    &&& at + 1 < ts.len()
    &&& ts[at].token_type == TokenType::Property
    &&& ts[at + 1].token_type == TokenType::Crlf
    &&& p.reads(ts[at].lexeme, ts[at].literal)
}

/// Whether the tokens of `ts` from `from` on are the property lines that
/// read as `props`, in order.
pub open spec fn lines_read(ts: Seq<TokenView>, from: int, props: Seq<Property>) -> bool {
    &&& 0 <= from
    &&& from + 2 * props.len() <= ts.len()
    &&& forall|i: int| 0 <= i < props.len() ==> line_read(ts, from + 2 * i, #[trigger] props[i])
}

/// Whether the tokens of `ts` at the increasing `positions` are the
/// property lines that read as `props`, in order.
pub open spec fn lines_at(ts: Seq<TokenView>, positions: Seq<int>, props: Seq<Property>) -> bool {
    &&& positions.len() == props.len()
    &&& forall|i: int| 0 <= i < props.len() ==> line_read(ts, positions[i], #[trigger] props[i])
    &&& forall|i: int, j: int| 0 <= i < j < positions.len() ==> #[trigger] positions[i] < #[trigger] positions[j]
}

/// Whether every one of `positions` is from `from` up to `to`.
pub open spec fn within(positions: Seq<int>, from: int, to: int) -> bool {
    forall|i: int| 0 <= i < positions.len() ==> from <= #[trigger] positions[i] < to
}

/// One more property line, after the others.
pub proof fn lemma_lines_at_push(ts: Seq<TokenView>, positions: Seq<int>, props: Seq<Property>, at: int, p: Property)
    requires
        lines_at(ts, positions, props),
        line_read(ts, at, p),
        forall|i: int| 0 <= i < positions.len() ==> #[trigger] positions[i] < at,
    ensures
        lines_at(ts, positions.push(at), props.push(p)),
{
    let ps2 = props.push(p);
    let pos2 = positions.push(at);
    assert forall|i: int| 0 <= i < ps2.len() implies line_read(ts, pos2[i], #[trigger] ps2[i]) by {
        if i < props.len() {
            assert(ps2[i] == props[i]);
            assert(pos2[i] == positions[i]);
        }
    }
    assert forall|i: int, j: int| 0 <= i < j < pos2.len() implies #[trigger] pos2[i] < #[trigger] pos2[j] by {
        if j < positions.len() {
            assert(pos2[i] == positions[i]);
            assert(pos2[j] == positions[j]);
        } else {
            assert(pos2[i] == positions[i]);
        }
    }
}

/// One more property line after lines read.
pub proof fn lemma_lines_read_push(ts: Seq<TokenView>, from: int, props: Seq<Property>, p: Property)
    requires
        lines_read(ts, from, props),
        from + 2 * props.len() + 2 <= ts.len(),
        ts[from + 2 * props.len()].token_type == TokenType::Property,
        ts[from + 2 * props.len() + 1].token_type == TokenType::Crlf,
        p.reads(ts[from + 2 * props.len()].lexeme, ts[from + 2 * props.len()].literal),
    ensures
        lines_read(ts, from, props.push(p)),
{
    let ps2 = props.push(p);
    assert forall|i: int| 0 <= i < ps2.len() implies line_read(ts, from + 2 * i, #[trigger] ps2[i]) by {
        if i < props.len() {
            assert(ps2[i] == props[i]);
        }
    }
    assert(0 <= from);
    assert(from + 2 * ps2.len() <= ts.len());
}

/// The calendar properties `props` read one after the other, or the
/// first refusal.
pub open spec fn calendar_fold(props: Seq<Property>) -> Result<CalendarParseParts, PropertyError>
    decreases props.len(),
{
    if props.len() == 0 {
        Ok(CalendarParseBuilder::empty_parts())
    } else {
        match calendar_fold(props.drop_last()) {
            Ok(q) => calendar_ingest(q, props.last()),
            Err(e) => Err(e),
        }
    }
}

/// Reads tokens into calendar objects.
#[derive(Debug)]
pub struct Parser {
    tokens: Vec<Token>,
    current: usize,
}

impl Parser {
    #[verifier::type_invariant]
    spec fn inv(&self) -> bool {
        self.current <= self.tokens.len()
    }

    /// The tokens, as values.
    pub closed spec fn spec_tokens(&self) -> Seq<TokenView> {
        views(self.tokens@)
    }

    /// How many tokens have been read.
    pub closed spec fn position(&self) -> nat {
        self.current as nat
    }

    /// A parser at the start of `tokens`.
    pub fn new(tokens: Vec<Token>) -> (r: Parser)
        ensures
            r.spec_tokens() == views(tokens@),
            r.position() == 0,
    {
        Parser { tokens, current: 0 }
    }

    /// The next token, unread.
    fn peek(&self) -> (r: Result<&Token, ParseError>)
        ensures
            self.current < self.tokens.len() ==> (r matches Ok(t) && *t == self.tokens@[self.current as int]),
            self.current >= self.tokens.len() ==> r matches Err(ParseError::UnexpectedEof),
    {
        if self.current < self.tokens.len() {
            Ok(&self.tokens[self.current])
        } else {
            Err(ParseError::UnexpectedEof)
        }
    }

    /// Whether the next token is of type `t`.
    fn check(&self, t: TokenType) -> (r: Result<bool, ParseError>)
        ensures
            self.current < self.tokens.len() ==> r == Ok::<bool, ParseError>(self.tokens@[self.current as int]@.token_type == t),
            self.current >= self.tokens.len() ==> r matches Err(ParseError::UnexpectedEof),
    {
        let tok = self.peek()?;
        Ok(tok.token_type() == t)
    }

    /// Whether every token has been read but the end of the input.
    pub fn is_at_end(&self) -> (r: Result<bool, ParseError>)
        ensures
            self.position() <= self.spec_tokens().len(),
            self.position() < self.spec_tokens().len() ==> r == Ok::<bool, ParseError>(self.spec_tokens()[self.position() as int].token_type == TokenType::Eof),
            self.position() >= self.spec_tokens().len() ==> r matches Err(ParseError::UnexpectedEof),
    {
        proof {
            use_type_invariant(self);
        }
        self.check(TokenType::Eof)
    }

    /// The error for an unexpected next token: its line and lexeme.
    fn error(&self, msg: &'static str) -> (r: ParseError)
        ensures
            self.current < self.tokens.len() ==> (r matches ParseError::UnexpectedToken { line, msg: m, .. } && line
                == self.tokens@[self.current as int]@.line && m == msg),
            self.current >= self.tokens.len() ==> r is UnexpectedEof,
    {
        match self.peek() {
            Ok(t) => {
                let lexeme = match string_from_utf8(copy_range(t.lexeme(), 0, t.lexeme().len())) {
                    Some(s) => s,
                    None => String::new(),
                };
                ParseError::UnexpectedToken { line: t.line(), msg, lexeme }
            },
            Err(e) => e,
        }
    }

    /// The error for input left after a calendar object that must be the
    /// last.
    pub(crate) fn trailing(&self) -> (r: ParseError)
        ensures
            self.position() < self.spec_tokens().len() ==> r is UnexpectedToken,
    {
        self.error("expected the end of the input")
    }

    /// Reads a token of type `t`, giving its index, or fails with `msg`.
    fn consume(&mut self, t: TokenType, msg: &'static str) -> (r: Result<usize, ParseError>)
        requires
            t != TokenType::Eof,
        ensures
            final(self).tokens@ == old(self).tokens@,
            final(self).current <= final(self).tokens.len(),
            r matches Ok(i) ==> i == old(self).current && final(self).current == i + 1 && i < old(self).tokens.len()
                && old(self).tokens@[i as int]@.token_type == t,
            r is Err ==> final(self).current == old(self).current,
            old(self).current < old(self).tokens.len() && old(self).tokens@[old(self).current as int]@.token_type == t ==> r is Ok,
    {
        proof {
            use_type_invariant(&*self);
        }
        proof {
            use_type_invariant(&*self);
        }
        if self.check(t)? {
            let i = self.current;
            self.current = i + 1;
            Ok(i)
        } else {
            Err(self.error(msg))
        }
    }

    /// The literal of the token at `i`, copied.
    fn literal_at(&self, i: usize) -> (r: Vec<u8>)
        requires
            i < self.tokens.len(),
        ensures
            r@ == self.tokens@[i as int]@.literal,
    {
        let l = self.tokens[i].literal();
        copy_range(l, 0, l.len())
    }

    /// The literal of the next token, copied, when there is one.
    fn next_literal(&self) -> (r: Vec<u8>)
        ensures
            self.current < self.tokens.len() ==> r@ == self.tokens@[self.current as int]@.literal,
    {
        proof {
            use_type_invariant(self);
        }
        if self.current < self.tokens.len() {
            self.literal_at(self.current)
        } else {
            Vec::new()
        }
    }

    /// Reads a property line: the property, then its line break.
    fn property(&mut self, msg: &'static str) -> (r: Result<Property, ParseError>)
        ensures
            final(self).tokens@ == old(self).tokens@,
            final(self).current <= final(self).tokens.len(),
            old(self).current <= final(self).current,
            r is Ok ==> old(self).current < final(self).current,
            r is Ok ==> final(self).current == old(self).current + 2
                && old(self).tokens@[old(self).current as int]@.token_type == TokenType::Property
                && old(self).tokens@[old(self).current + 1]@.token_type == TokenType::Crlf,
            r matches Ok(p) ==> p.reads(
                old(self).tokens@[old(self).current as int]@.lexeme,
                old(self).tokens@[old(self).current as int]@.literal,
            ),
            r is Ok ==> Property::parses(
                old(self).tokens@[old(self).current as int]@.lexeme,
                old(self).tokens@[old(self).current as int]@.literal,
            ),
            old(self).current + 1 < old(self).tokens.len() && old(self).tokens@[old(self).current as int]@.token_type == TokenType::Property
                && old(self).tokens@[old(self).current + 1]@.token_type == TokenType::Crlf && Property::parses(
                old(self).tokens@[old(self).current as int]@.lexeme,
                old(self).tokens@[old(self).current as int]@.literal,
            ) ==> r is Ok,
    {
        proof {
            use_type_invariant(&*self);
        }
        let i = self.consume(TokenType::Property, msg)?;
        let p = Property::parse(self.tokens[i].lexeme(), self.tokens[i].literal())?;
        self.consume(TokenType::Crlf, "expected crlf after property")?;
        Ok(p)
    }

    /// Reads the `END` line of the component named `name`.
    fn end_of(&mut self, name: &[u8], msg: &'static str) -> (r: Result<(), ParseError>)
        ensures
            final(self).tokens@ == old(self).tokens@,
            final(self).current <= final(self).tokens.len(),
            old(self).current <= final(self).current,
            r is Ok ==> old(self).current < final(self).current && old(self).tokens@[old(self).current as int]@.token_type == TokenType::End
                && old(self).tokens@[old(self).current as int]@.literal == name@,
            r is Ok ==> final(self).current == old(self).current + 2 && old(self).tokens@[old(self).current + 1]@.token_type == TokenType::Crlf,
            old(self).current < old(self).tokens.len() && old(self).tokens@[old(self).current as int]@.token_type == TokenType::End
                && old(self).tokens@[old(self).current as int]@.literal != name@ ==> r == Err::<(), ParseError>(ParseError::MismatchedEnd),
            old(self).current + 1 < old(self).tokens.len() && old(self).tokens@[old(self).current as int]@.token_type == TokenType::End
                && old(self).tokens@[old(self).current as int]@.literal == name@ && old(self).tokens@[old(self).current + 1]@.token_type
                == TokenType::Crlf ==> r is Ok,
    {
        proof {
            use_type_invariant(&*self);
        }
        let j = self.consume(TokenType::End, msg)?;
        if !eq_bytes(self.tokens[j].literal(), name) {
            return Err(ParseError::MismatchedEnd);
        }
        self.consume(TokenType::Crlf, "expected crlf after END")?;
        Ok(())
    }

    /// Reads the `BEGIN` line of a sub-component, which must be named `name`.
    fn begin_of(&mut self, name: &str) -> (r: Result<(), ParseError>)
        ensures
            final(self).tokens@ == old(self).tokens@,
            final(self).current <= final(self).tokens.len(),
            old(self).current <= final(self).current,
            r is Ok ==> old(self).current < final(self).current && old(self).tokens@[old(self).current as int]@.token_type == TokenType::Begin
                && old(self).tokens@[old(self).current as int]@.literal == name.spec_bytes(),
            r is Ok ==> final(self).current == old(self).current + 2 && old(self).tokens@[old(self).current + 1]@.token_type == TokenType::Crlf,
            old(self).current + 1 < old(self).tokens.len() && old(self).tokens@[old(self).current as int]@.token_type == TokenType::Begin
                && old(self).tokens@[old(self).current as int]@.literal == name.spec_bytes() && old(self).tokens@[old(self).current + 1]@.token_type
                == TokenType::Crlf ==> r is Ok,
    {
        proof {
            use_type_invariant(&*self);
        }
        let i = self.consume(TokenType::Begin, "expected sub-component to start with BEGIN")?;
        if !eq_str(self.tokens[i].literal(), name) {
            return Err(ParseError::UnknownComponent);
        }
        self.consume(TokenType::Crlf, "expected crlf after BEGIN")?;
        Ok(())
    }

    /// Reads a `VLOCATION` sub-component: its properties, no further nesting.
    fn location(&mut self) -> (r: Result<VLocation, ParseError>)
        ensures
            final(self).tokens@ == old(self).tokens@,
            final(self).current <= final(self).tokens.len(),
            old(self).current <= final(self).current,
            r is Ok ==> old(self).current < final(self).current,
            r matches Ok(c) ==> block_end(views(old(self).tokens@), old(self).current as int, Ctx::Location) == Some(final(self).current as int)
                && location_read(views(old(self).tokens@), old(self).current as int, c),
            location_sound(views(old(self).tokens@), old(self).current as int) ==> r is Ok,
    {
        proof {
            use_type_invariant(&*self);
        }
        let ghost s: int = old(self).current as int;
        self.begin_of("VLOCATION")?;
        proof {
            assert(views(self.tokens@)[s] == self.tokens@[s]@);
            assert(views(self.tokens@)[s + 1] == self.tokens@[s + 1]@);
        }
        let ghost sound = location_sound(views(self.tokens@), s);
        proof {
            lemma_nested_names_differ();
            if sound {
                assert(block_end(views(self.tokens@), s, Ctx::Location) is Some);
                assert(body_end(views(self.tokens@), s + 2, Ctx::Location) is Some);
            }
        }
        let mut b = VLocationParseBuilder::new();
        let ghost mut props: Seq<Property> = Seq::empty();
        let ghost mut positions: Seq<int> = Seq::empty();
        loop
            invariant
                self.tokens@ == old(self).tokens@,
                self.current <= self.tokens.len(),
                0 <= s, s + 2 <= self.current,
                s == old(self).current as int,
                views(self.tokens@)[s].token_type == TokenType::Begin,
                views(self.tokens@)[s].literal == "VLOCATION".spec_bytes(),
                views(self.tokens@)[s + 1].token_type == TokenType::Crlf,
                lines_at(views(self.tokens@), positions, props),
                within(positions, s, self.current as int),
                vlocation_fold(props) == Ok::<VLocationParseParts, PropertyError>(b.parts()),
                line_positions(views(self.tokens@), s + 2, Ctx::Location) == positions + line_positions(views(self.tokens@), self.current as int, Ctx::Location),
                body_end(views(self.tokens@), s + 2, Ctx::Location) == body_end(views(self.tokens@), self.current as int, Ctx::Location),
                sound == location_sound(views(self.tokens@), s),
                sound ==> body_end(views(self.tokens@), self.current as int, Ctx::Location) is Some,
                props.len() == positions.len(),
            ensures
                self.current < self.tokens.len() && self.tokens@[self.current as int]@.token_type == TokenType::End,
            decreases self.tokens.len() - self.current,
        {
            proof {
                use_type_invariant(&*self);
            }
            proof {
                lemma_nested_names_differ();
            }
            let ghost at = self.current as int;
            if self.check(TokenType::End)? {
                break;
            }
            let pr = self.property("expected a property line");
            let p = match pr {
                Ok(p) => p,
                Err(e) => {
                    proof {
                        assert(views(self.tokens@)[at] == self.tokens@[at]@);
                        if at + 1 < views(self.tokens@).len() {
                            assert(views(self.tokens@)[at + 1] == self.tokens@[at + 1]@);
                        }
                        assert(!line_ok(Ctx::Location, views(self.tokens@), at));
                        assert(body_end(views(self.tokens@), at, Ctx::Location) is None);
                        assert(body_stop(views(self.tokens@), at, Ctx::Location) == at);
                    }
                    return Err(e);
                },
            };
            let ghost before = b.parts();
            if let Err(e) = b.ingest(p) {
                proof {
                    assert(views(self.tokens@)[at] == self.tokens@[at]@);
                    assert(views(self.tokens@)[at + 1] == self.tokens@[at + 1]@);
                    let lp = line_positions(views(self.tokens@), s + 2, Ctx::Location);
                    assert(line_ok(Ctx::Location, views(self.tokens@), at));
                    assert(line_positions(views(self.tokens@), at, Ctx::Location) == seq![at] + line_positions(views(self.tokens@), at + 2, Ctx::Location));
                    assert(lp.take(positions.len() + 1int) =~= positions.push(at));
                    lemma_lines_at_push(views(self.tokens@), positions, props, at, p);
                    assert(props.push(p).drop_last() =~= props);
                    assert(lines_at(views(self.tokens@), lp.take(props.push(p).len() as int), props.push(p)));
                    assert(vlocation_fold(props.push(p)) is Err);
                }
                return Err(ParseError::Property(e));
            }
            proof {
                assert(views(self.tokens@)[at] == self.tokens@[at]@);
                assert(views(self.tokens@)[at + 1] == self.tokens@[at + 1]@);
                assert(line_ok(Ctx::Location, views(self.tokens@), at));
                assert(line_positions(views(self.tokens@), at, Ctx::Location) == seq![at] + line_positions(views(self.tokens@), at + 2, Ctx::Location));
                assert(positions.push(at) + line_positions(views(self.tokens@), at + 2, Ctx::Location) =~= positions + (seq![at] + line_positions(views(self.tokens@), at + 2, Ctx::Location)));
                assert(body_end(views(self.tokens@), at, Ctx::Location) == body_end(views(self.tokens@), at + 2, Ctx::Location));
                lemma_lines_at_push(views(self.tokens@), positions, props, at, p);
                assert(props.push(p).drop_last() =~= props);
                props = props.push(p);
                positions = positions.push(at);
            }
        }
        let ghost endpos = self.current as int;
        proof {
            if sound {
                assert(views(self.tokens@)[endpos] == self.tokens@[endpos]@);
                assert(body_end(views(self.tokens@), s + 2, Ctx::Location) == Some(endpos));
                assert(block_end(views(self.tokens@), s, Ctx::Location) is Some);
                assert(views(self.tokens@)[endpos + 1] == self.tokens@[endpos + 1]@);
            }
        }
        self.end_of("VLOCATION".as_bytes(), "expected sub-component to end with END")?;
        proof {
            assert(views(self.tokens@)[endpos] == self.tokens@[endpos]@);
            assert(views(self.tokens@)[endpos + 1] == self.tokens@[endpos + 1]@);
            assert(line_positions(views(self.tokens@), endpos, Ctx::Location) =~= Seq::<int>::empty());
            assert(positions + Seq::<int>::empty() =~= positions);
            assert(body_end(views(self.tokens@), endpos, Ctx::Location) == Some(endpos));
            assert(block_end(views(self.tokens@), s, Ctx::Location) == Some(endpos + 2));
            assert(lines_at(views(self.tokens@), line_positions(views(self.tokens@), s + 2, Ctx::Location), props));
        }
        let ghost bp = b.parts();
        match b.finish() {
            Ok(c) => {
                proof {
                    assert(lines_at(views(self.tokens@), line_positions(views(self.tokens@), s + 2, Ctx::Location), props));
                }
                Ok(c)
            },
            Err(e) => {
                proof {
                    if sound {
                        assert(lines_at(views(self.tokens@), line_positions(views(self.tokens@), s + 2, Ctx::Location), props));
                    }
                }
                Err(ParseError::Component(e))
            },
        }
    }

    /// Reads an `AVAILABLE` sub-component: its properties, no further nesting.
    fn available(&mut self) -> (r: Result<Available, ParseError>)
        ensures
            final(self).tokens@ == old(self).tokens@,
            final(self).current <= final(self).tokens.len(),
            old(self).current <= final(self).current,
            r is Ok ==> old(self).current < final(self).current,
            r matches Ok(c) ==> block_end(views(old(self).tokens@), old(self).current as int, Ctx::Available) == Some(final(self).current as int)
                && available_read(views(old(self).tokens@), old(self).current as int, c),
            available_sound(views(old(self).tokens@), old(self).current as int) ==> r is Ok,
    {
        proof {
            use_type_invariant(&*self);
        }
        let ghost s: int = old(self).current as int;
        self.begin_of("AVAILABLE")?;
        proof {
            assert(views(self.tokens@)[s] == self.tokens@[s]@);
            assert(views(self.tokens@)[s + 1] == self.tokens@[s + 1]@);
        }
        let ghost sound = available_sound(views(self.tokens@), s);
        proof {
            lemma_nested_names_differ();
            if sound {
                assert(block_end(views(self.tokens@), s, Ctx::Available) is Some);
                assert(body_end(views(self.tokens@), s + 2, Ctx::Available) is Some);
            }
        }
        let mut b = AvailableParseBuilder::new();
        let ghost mut props: Seq<Property> = Seq::empty();
        let ghost mut positions: Seq<int> = Seq::empty();
        loop
            invariant
                self.tokens@ == old(self).tokens@,
                self.current <= self.tokens.len(),
                0 <= s, s + 2 <= self.current,
                s == old(self).current as int,
                views(self.tokens@)[s].token_type == TokenType::Begin,
                views(self.tokens@)[s].literal == "AVAILABLE".spec_bytes(),
                views(self.tokens@)[s + 1].token_type == TokenType::Crlf,
                lines_at(views(self.tokens@), positions, props),
                within(positions, s, self.current as int),
                available_fold(props) == Ok::<AvailableParseParts, PropertyError>(b.parts()),
                line_positions(views(self.tokens@), s + 2, Ctx::Available) == positions + line_positions(views(self.tokens@), self.current as int, Ctx::Available),
                body_end(views(self.tokens@), s + 2, Ctx::Available) == body_end(views(self.tokens@), self.current as int, Ctx::Available),
                sound == available_sound(views(self.tokens@), s),
                sound ==> body_end(views(self.tokens@), self.current as int, Ctx::Available) is Some,
                props.len() == positions.len(),
            ensures
                self.current < self.tokens.len() && self.tokens@[self.current as int]@.token_type == TokenType::End,
            decreases self.tokens.len() - self.current,
        {
            proof {
                use_type_invariant(&*self);
            }
            proof {
                lemma_nested_names_differ();
            }
            let ghost at = self.current as int;
            if self.check(TokenType::End)? {
                break;
            }
            let pr = self.property("expected a property line");
            let p = match pr {
                Ok(p) => p,
                Err(e) => {
                    proof {
                        assert(views(self.tokens@)[at] == self.tokens@[at]@);
                        if at + 1 < views(self.tokens@).len() {
                            assert(views(self.tokens@)[at + 1] == self.tokens@[at + 1]@);
                        }
                        assert(!line_ok(Ctx::Available, views(self.tokens@), at));
                        assert(body_end(views(self.tokens@), at, Ctx::Available) is None);
                        assert(body_stop(views(self.tokens@), at, Ctx::Available) == at);
                    }
                    return Err(e);
                },
            };
            let ghost before = b.parts();
            if let Err(e) = b.ingest(p) {
                proof {
                    assert(views(self.tokens@)[at] == self.tokens@[at]@);
                    assert(views(self.tokens@)[at + 1] == self.tokens@[at + 1]@);
                    let lp = line_positions(views(self.tokens@), s + 2, Ctx::Available);
                    assert(line_ok(Ctx::Available, views(self.tokens@), at));
                    assert(line_positions(views(self.tokens@), at, Ctx::Available) == seq![at] + line_positions(views(self.tokens@), at + 2, Ctx::Available));
                    assert(lp.take(positions.len() + 1int) =~= positions.push(at));
                    lemma_lines_at_push(views(self.tokens@), positions, props, at, p);
                    assert(props.push(p).drop_last() =~= props);
                    assert(lines_at(views(self.tokens@), lp.take(props.push(p).len() as int), props.push(p)));
                    assert(available_fold(props.push(p)) is Err);
                }
                return Err(ParseError::Property(e));
            }
            proof {
                assert(views(self.tokens@)[at] == self.tokens@[at]@);
                assert(views(self.tokens@)[at + 1] == self.tokens@[at + 1]@);
                assert(line_ok(Ctx::Available, views(self.tokens@), at));
                assert(line_positions(views(self.tokens@), at, Ctx::Available) == seq![at] + line_positions(views(self.tokens@), at + 2, Ctx::Available));
                assert(positions.push(at) + line_positions(views(self.tokens@), at + 2, Ctx::Available) =~= positions + (seq![at] + line_positions(views(self.tokens@), at + 2, Ctx::Available)));
                assert(body_end(views(self.tokens@), at, Ctx::Available) == body_end(views(self.tokens@), at + 2, Ctx::Available));
                lemma_lines_at_push(views(self.tokens@), positions, props, at, p);
                assert(props.push(p).drop_last() =~= props);
                props = props.push(p);
                positions = positions.push(at);
            }
        }
        let ghost endpos = self.current as int;
        proof {
            if sound {
                assert(views(self.tokens@)[endpos] == self.tokens@[endpos]@);
                assert(body_end(views(self.tokens@), s + 2, Ctx::Available) == Some(endpos));
                assert(block_end(views(self.tokens@), s, Ctx::Available) is Some);
                assert(views(self.tokens@)[endpos + 1] == self.tokens@[endpos + 1]@);
            }
        }
        self.end_of("AVAILABLE".as_bytes(), "expected sub-component to end with END")?;
        proof {
            assert(views(self.tokens@)[endpos] == self.tokens@[endpos]@);
            assert(views(self.tokens@)[endpos + 1] == self.tokens@[endpos + 1]@);
            assert(line_positions(views(self.tokens@), endpos, Ctx::Available) =~= Seq::<int>::empty());
            assert(positions + Seq::<int>::empty() =~= positions);
            assert(body_end(views(self.tokens@), endpos, Ctx::Available) == Some(endpos));
            assert(block_end(views(self.tokens@), s, Ctx::Available) == Some(endpos + 2));
            assert(lines_at(views(self.tokens@), line_positions(views(self.tokens@), s + 2, Ctx::Available), props));
        }
        let ghost bp = b.parts();
        match b.finish() {
            Ok(c) => {
                proof {
                    assert(lines_at(views(self.tokens@), line_positions(views(self.tokens@), s + 2, Ctx::Available), props));
                }
                Ok(c)
            },
            Err(e) => {
                proof {
                    if sound {
                        assert(lines_at(views(self.tokens@), line_positions(views(self.tokens@), s + 2, Ctx::Available), props));
                    }
                }
                Err(ParseError::Component(e))
            },
        }
    }

    /// Reads a `STANDARD` or `DAYLIGHT` sub-component; `true` for daylight.
    fn tz_observance(&mut self) -> (r: Result<(bool, TzProp), ParseError>)
        ensures
            final(self).tokens@ == old(self).tokens@,
            final(self).current <= final(self).tokens.len(),
            old(self).current <= final(self).current,
            r is Ok ==> old(self).current < final(self).current,
            r matches Ok((_, c)) ==> block_end(views(old(self).tokens@), old(self).current as int, Ctx::Observance) == Some(final(self).current as int)
                && observance_read(views(old(self).tokens@), old(self).current as int, c),
            r matches Ok((d, _)) ==> old(self).tokens@[old(self).current as int]@.literal == (if d { "DAYLIGHT".spec_bytes() } else { "STANDARD".spec_bytes() }),
            observance_sound(views(old(self).tokens@), old(self).current as int) ==> r is Ok,
    {
        proof {
            use_type_invariant(&*self);
        }
        let ghost s: int = old(self).current as int;
        let i = self.consume(TokenType::Begin, "expected sub-component to start with BEGIN")?;
        let name = self.literal_at(i);
        let daylight = if eq_str(name.as_slice(), "STANDARD") {
            false
        } else if eq_str(name.as_slice(), "DAYLIGHT") {
            true
        } else {
            return Err(ParseError::UnknownComponent);
        };
        self.consume(TokenType::Crlf, "expected crlf after BEGIN")?;
        proof {
            assert(views(self.tokens@)[s] == self.tokens@[s]@);
            assert(views(self.tokens@)[s + 1] == self.tokens@[s + 1]@);
        }
        let ghost sound = observance_sound(views(self.tokens@), s);
        proof {
            lemma_nested_names_differ();
            if sound {
                assert(block_end(views(self.tokens@), s, Ctx::Observance) is Some);
                assert(body_end(views(self.tokens@), s + 2, Ctx::Observance) is Some);
            }
        }
        let mut b = TzPropParseBuilder::new();
        let ghost mut props: Seq<Property> = Seq::empty();
        let ghost mut positions: Seq<int> = Seq::empty();
        loop
            invariant
                self.tokens@ == old(self).tokens@,
                self.current <= self.tokens.len(),
                0 <= s, s + 2 <= self.current,
                s == old(self).current as int,
                views(self.tokens@)[s].token_type == TokenType::Begin,
                views(self.tokens@)[s].literal == name@,
                views(self.tokens@)[s + 1].token_type == TokenType::Crlf,
                lines_at(views(self.tokens@), positions, props),
                within(positions, s, self.current as int),
                tzprop_fold(props) == Ok::<TzPropParseParts, PropertyError>(b.parts()),
                line_positions(views(self.tokens@), s + 2, Ctx::Observance) == positions + line_positions(views(self.tokens@), self.current as int, Ctx::Observance),
                body_end(views(self.tokens@), s + 2, Ctx::Observance) == body_end(views(self.tokens@), self.current as int, Ctx::Observance),
                sound == observance_sound(views(self.tokens@), s),
                sound ==> body_end(views(self.tokens@), self.current as int, Ctx::Observance) is Some,
                props.len() == positions.len(),
            ensures
                self.current < self.tokens.len() && self.tokens@[self.current as int]@.token_type == TokenType::End,
            decreases self.tokens.len() - self.current,
        {
            proof {
                use_type_invariant(&*self);
            }
            proof {
                lemma_nested_names_differ();
            }
            let ghost at = self.current as int;
            if self.check(TokenType::End)? {
                break;
            }
            let pr = self.property("expected a property line");
            let p = match pr {
                Ok(p) => p,
                Err(e) => {
                    proof {
                        assert(views(self.tokens@)[at] == self.tokens@[at]@);
                        if at + 1 < views(self.tokens@).len() {
                            assert(views(self.tokens@)[at + 1] == self.tokens@[at + 1]@);
                        }
                        assert(!line_ok(Ctx::Observance, views(self.tokens@), at));
                        assert(body_end(views(self.tokens@), at, Ctx::Observance) is None);
                        assert(body_stop(views(self.tokens@), at, Ctx::Observance) == at);
                    }
                    return Err(e);
                },
            };
            let ghost before = b.parts();
            if let Err(e) = b.ingest(p) {
                proof {
                    assert(views(self.tokens@)[at] == self.tokens@[at]@);
                    assert(views(self.tokens@)[at + 1] == self.tokens@[at + 1]@);
                    let lp = line_positions(views(self.tokens@), s + 2, Ctx::Observance);
                    assert(line_ok(Ctx::Observance, views(self.tokens@), at));
                    assert(line_positions(views(self.tokens@), at, Ctx::Observance) == seq![at] + line_positions(views(self.tokens@), at + 2, Ctx::Observance));
                    assert(lp.take(positions.len() + 1int) =~= positions.push(at));
                    lemma_lines_at_push(views(self.tokens@), positions, props, at, p);
                    assert(props.push(p).drop_last() =~= props);
                    assert(lines_at(views(self.tokens@), lp.take(props.push(p).len() as int), props.push(p)));
                    assert(tzprop_fold(props.push(p)) is Err);
                }
                return Err(ParseError::Property(e));
            }
            proof {
                assert(views(self.tokens@)[at] == self.tokens@[at]@);
                assert(views(self.tokens@)[at + 1] == self.tokens@[at + 1]@);
                assert(line_ok(Ctx::Observance, views(self.tokens@), at));
                assert(line_positions(views(self.tokens@), at, Ctx::Observance) == seq![at] + line_positions(views(self.tokens@), at + 2, Ctx::Observance));
                assert(positions.push(at) + line_positions(views(self.tokens@), at + 2, Ctx::Observance) =~= positions + (seq![at] + line_positions(views(self.tokens@), at + 2, Ctx::Observance)));
                assert(body_end(views(self.tokens@), at, Ctx::Observance) == body_end(views(self.tokens@), at + 2, Ctx::Observance));
                lemma_lines_at_push(views(self.tokens@), positions, props, at, p);
                assert(props.push(p).drop_last() =~= props);
                props = props.push(p);
                positions = positions.push(at);
            }
        }
        let ghost endpos = self.current as int;
        proof {
            if sound {
                assert(views(self.tokens@)[endpos] == self.tokens@[endpos]@);
                assert(body_end(views(self.tokens@), s + 2, Ctx::Observance) == Some(endpos));
                assert(block_end(views(self.tokens@), s, Ctx::Observance) is Some);
                assert(views(self.tokens@)[endpos + 1] == self.tokens@[endpos + 1]@);
            }
        }
        self.end_of(name.as_slice(), "expected sub-component to end with END")?;
        proof {
            assert(views(self.tokens@)[endpos] == self.tokens@[endpos]@);
            assert(views(self.tokens@)[endpos + 1] == self.tokens@[endpos + 1]@);
            assert(line_positions(views(self.tokens@), endpos, Ctx::Observance) =~= Seq::<int>::empty());
            assert(positions + Seq::<int>::empty() =~= positions);
            assert(body_end(views(self.tokens@), endpos, Ctx::Observance) == Some(endpos));
            assert(block_end(views(self.tokens@), s, Ctx::Observance) == Some(endpos + 2));
            assert(lines_at(views(self.tokens@), line_positions(views(self.tokens@), s + 2, Ctx::Observance), props));
        }
        let ghost bp = b.parts();
        match b.finish() {
            Ok(c) => {
                proof {
                    assert(lines_at(views(self.tokens@), line_positions(views(self.tokens@), s + 2, Ctx::Observance), props));
                }
                Ok((daylight, c))
            },
            Err(e) => {
                proof {
                    if sound {
                        assert(lines_at(views(self.tokens@), line_positions(views(self.tokens@), s + 2, Ctx::Observance), props));
                    }
                }
                Err(ParseError::Component(e))
            },
        }
    }

    /// Reads a `VALARM` sub-component, which may nest `VLOCATION`s.
    fn alarm(&mut self) -> (r: Result<Alarm, ParseError>)
        ensures
            final(self).tokens@ == old(self).tokens@,
            final(self).current <= final(self).tokens.len(),
            old(self).current <= final(self).current,
            r is Ok ==> old(self).current < final(self).current,
            r matches Ok(c) ==> block_end(views(old(self).tokens@), old(self).current as int, Ctx::Alarm) == Some(final(self).current as int)
                && alarm_read(views(old(self).tokens@), old(self).current as int, c),
            alarm_sound(views(old(self).tokens@), old(self).current as int) ==> r is Ok,
    {
        proof {
            use_type_invariant(&*self);
        }
        let ghost s: int = old(self).current as int;
        self.begin_of("VALARM")?;
        proof {
            assert(views(self.tokens@)[s] == self.tokens@[s]@);
            assert(views(self.tokens@)[s + 1] == self.tokens@[s + 1]@);
        }
        let ghost sound = alarm_sound(views(self.tokens@), s);
        proof {
            lemma_nested_names_differ();
            if sound {
                assert(block_end(views(self.tokens@), s, Ctx::Alarm) is Some);
                assert(body_end(views(self.tokens@), s + 2, Ctx::Alarm) is Some);
            }
        }
        let mut b = AlarmParseBuilder::new();
        let ghost mut props: Seq<Property> = Seq::empty();
        let ghost mut positions: Seq<int> = Seq::empty();
        let ghost mut kids: Seq<int> = Seq::empty();
        let ghost mut kall: Seq<int> = Seq::empty();
        loop
            invariant
                self.tokens@ == old(self).tokens@,
                self.current <= self.tokens.len(),
                0 <= s, s + 2 <= self.current,
                s == old(self).current as int,
                views(self.tokens@)[s].token_type == TokenType::Begin,
                views(self.tokens@)[s].literal == "VALARM".spec_bytes(),
                views(self.tokens@)[s + 1].token_type == TokenType::Crlf,
                lines_at(views(self.tokens@), positions, props),
                within(positions, s, self.current as int),
                alarm_fold(props) matches Ok(q) && b.parts() == (AlarmParseParts { locations: b.parts().locations, ..q }),
                line_positions(views(self.tokens@), s + 2, Ctx::Alarm) == positions + line_positions(views(self.tokens@), self.current as int, Ctx::Alarm),
                body_end(views(self.tokens@), s + 2, Ctx::Alarm) == body_end(views(self.tokens@), self.current as int, Ctx::Alarm),
                sound == alarm_sound(views(self.tokens@), s),
                sound ==> body_end(views(self.tokens@), self.current as int, Ctx::Alarm) is Some,
                props.len() == positions.len(),
                children(views(self.tokens@), s + 2, Ctx::Alarm, None) == kall + children(views(self.tokens@), self.current as int, Ctx::Alarm, None),
                children(views(self.tokens@), s + 2, Ctx::Alarm, None) == kids + children(views(self.tokens@), self.current as int, Ctx::Alarm, None),
                locations_read(views(self.tokens@), kids, b.parts().locations),
            ensures
                self.current < self.tokens.len() && self.tokens@[self.current as int]@.token_type == TokenType::End,
            decreases self.tokens.len() - self.current,
        {
            proof {
                use_type_invariant(&*self);
            }
            proof {
                lemma_nested_names_differ();
            }
            let ghost at = self.current as int;
            if self.check(TokenType::End)? {
                break;
            }
            if self.check(TokenType::Begin)? {
                let name = self.next_literal();
                if eq_str(name.as_slice(), "VLOCATION") {
                    let res = self.location();
                    let l = match res {
                        Ok(x) => x,
                        Err(e) => {
                            proof {
                                if sound {
                                    assert(views(self.tokens@)[at] == self.tokens@[at]@);
                                    let j = block_end(views(self.tokens@), at, Ctx::Location)->0;
                                    assert(children(views(self.tokens@), at, Ctx::Alarm, None) == seq![at] + children(views(self.tokens@), j, Ctx::Alarm, None));
                                    assert(children(views(self.tokens@), s + 2, Ctx::Alarm, None)[kall.len() as int] == at);
                                }
                            }
                            return Err(e);
                        },
                    };
                    proof {
                        assert(views(self.tokens@)[at] == self.tokens@[at]@);
                        assert(nested_ok(Ctx::Alarm, views(self.tokens@)[at].literal) == Some(Ctx::Location));
                        let j = self.current as int;
                        assert(line_positions(views(self.tokens@), at, Ctx::Alarm) == line_positions(views(self.tokens@), j, Ctx::Alarm));
                        assert(body_end(views(self.tokens@), at, Ctx::Alarm) == body_end(views(self.tokens@), j, Ctx::Alarm));
                        assert(children(views(self.tokens@), at, Ctx::Alarm, None) == seq![at] + children(views(self.tokens@), j, Ctx::Alarm, None));
                        assert(kall.push(at) + children(views(self.tokens@), j, Ctx::Alarm, None) =~= kall + (seq![at] + children(views(self.tokens@), j, Ctx::Alarm, None)));
                        kall = kall.push(at);
                    }
                    proof {
                        let j = self.current as int;
                        assert(children(views(self.tokens@), at, Ctx::Alarm, None) == seq![at] + children(views(self.tokens@), j, Ctx::Alarm, None));
                        assert(kids.push(at) + children(views(self.tokens@), j, Ctx::Alarm, None) =~= kids + (seq![at] + children(views(self.tokens@), j, Ctx::Alarm, None)));
                        lemma_locations_read_push(views(self.tokens@), kids, b.parts().locations, at, l);
                        kids = kids.push(at);
                    }
                    b.push_locations(l);
                } else {
                    return Err(ParseError::UnknownComponent);
                }
            } else {
                let pr = self.property("expected a property line");
                let p = match pr {
                    Ok(p) => p,
                    Err(e) => {
                        proof {
                            assert(views(self.tokens@)[at] == self.tokens@[at]@);
                            if at + 1 < views(self.tokens@).len() {
                                assert(views(self.tokens@)[at + 1] == self.tokens@[at + 1]@);
                            }
                            assert(!line_ok(Ctx::Alarm, views(self.tokens@), at));
                            assert(body_end(views(self.tokens@), at, Ctx::Alarm) is None);
                            assert(body_stop(views(self.tokens@), at, Ctx::Alarm) == at);
                        }
                        return Err(e);
                    },
                };
                let ghost before = b.parts();
                if let Err(e) = b.ingest(p) {
                    proof {
                        assert(views(self.tokens@)[at] == self.tokens@[at]@);
                        assert(views(self.tokens@)[at + 1] == self.tokens@[at + 1]@);
                        let lp = line_positions(views(self.tokens@), s + 2, Ctx::Alarm);
                        assert(line_ok(Ctx::Alarm, views(self.tokens@), at));
                        assert(line_positions(views(self.tokens@), at, Ctx::Alarm) == seq![at] + line_positions(views(self.tokens@), at + 2, Ctx::Alarm));
                        assert(lp.take(positions.len() + 1int) =~= positions.push(at));
                        lemma_lines_at_push(views(self.tokens@), positions, props, at, p);
                        assert(props.push(p).drop_last() =~= props);
                        assert(lines_at(views(self.tokens@), lp.take(props.push(p).len() as int), props.push(p)));
                        match alarm_fold(props) {
                            Ok(q) => {
                                lemma_alarm_ingest_nested(q, p, before.locations);
                            },
                            Err(_) => {},
                        }
                        assert(alarm_fold(props.push(p)) is Err);
                    }
                    return Err(ParseError::Property(e));
                }
                proof {
                    assert(views(self.tokens@)[at] == self.tokens@[at]@);
                    assert(views(self.tokens@)[at + 1] == self.tokens@[at + 1]@);
                    assert(line_ok(Ctx::Alarm, views(self.tokens@), at));
                    assert(line_positions(views(self.tokens@), at, Ctx::Alarm) == seq![at] + line_positions(views(self.tokens@), at + 2, Ctx::Alarm));
                    assert(positions.push(at) + line_positions(views(self.tokens@), at + 2, Ctx::Alarm) =~= positions + (seq![at] + line_positions(views(self.tokens@), at + 2, Ctx::Alarm)));
                    assert(body_end(views(self.tokens@), at, Ctx::Alarm) == body_end(views(self.tokens@), at + 2, Ctx::Alarm));
                    assert(children(views(self.tokens@), at, Ctx::Alarm, None) == children(views(self.tokens@), at + 2, Ctx::Alarm, None));
                    assert(children(views(self.tokens@), at, Ctx::Alarm, None) == children(views(self.tokens@), at + 2, Ctx::Alarm, None));
                    lemma_lines_at_push(views(self.tokens@), positions, props, at, p);
                    assert(props.push(p).drop_last() =~= props);
                    match alarm_fold(props) {
                        Ok(q) => {
                            lemma_alarm_ingest_nested(q, p, before.locations);
                        },
                        Err(_) => {},
                    }
                    props = props.push(p);
                    positions = positions.push(at);
                }
            }
        }
        let ghost endpos = self.current as int;
        proof {
            if sound {
                assert(views(self.tokens@)[endpos] == self.tokens@[endpos]@);
                assert(body_end(views(self.tokens@), s + 2, Ctx::Alarm) == Some(endpos));
                assert(block_end(views(self.tokens@), s, Ctx::Alarm) is Some);
                assert(views(self.tokens@)[endpos + 1] == self.tokens@[endpos + 1]@);
            }
        }
        self.end_of("VALARM".as_bytes(), "expected sub-component to end with END")?;
        proof {
            assert(views(self.tokens@)[endpos] == self.tokens@[endpos]@);
            assert(views(self.tokens@)[endpos + 1] == self.tokens@[endpos + 1]@);
            assert(line_positions(views(self.tokens@), endpos, Ctx::Alarm) =~= Seq::<int>::empty());
            assert(positions + Seq::<int>::empty() =~= positions);
            assert(body_end(views(self.tokens@), endpos, Ctx::Alarm) == Some(endpos));
            assert(children(views(self.tokens@), endpos, Ctx::Alarm, None) =~= Seq::<int>::empty());
            assert(kids + Seq::<int>::empty() =~= kids);
            assert(block_end(views(self.tokens@), s, Ctx::Alarm) == Some(endpos + 2));
            assert(lines_at(views(self.tokens@), line_positions(views(self.tokens@), s + 2, Ctx::Alarm), props));
        }
        let ghost bp = b.parts();
        match b.finish() {
            Ok(c) => {
                proof {
                    assert(lines_at(views(self.tokens@), line_positions(views(self.tokens@), s + 2, Ctx::Alarm), props));
                }
                Ok(c)
            },
            Err(e) => {
                proof {
                    if sound {
                        assert(lines_at(views(self.tokens@), line_positions(views(self.tokens@), s + 2, Ctx::Alarm), props));
                        assert(children(views(self.tokens@), s + 2, Ctx::Alarm, None) == kids);
                        assert(locations_read(views(self.tokens@), children(views(self.tokens@), s + 2, Ctx::Alarm, None), bp.locations));
                    }
                }
                Err(ParseError::Component(e))
            },
        }
    }

    /// Reads the body and the `END` line of a `VEVENT` whose `BEGIN` line
    /// has been read.
    fn event_body(&mut self, has_method: bool) -> (r: Result<Event, ParseError>)
        requires
            2 <= old(self).current <= old(self).tokens.len(),
            old(self).tokens@[old(self).current - 2]@.token_type == TokenType::Begin,
            old(self).tokens@[old(self).current - 2]@.literal == "VEVENT".spec_bytes(),
            old(self).tokens@[old(self).current - 1]@.token_type == TokenType::Crlf,
        ensures
            final(self).tokens@ == old(self).tokens@,
            final(self).current <= final(self).tokens.len(),
            old(self).current <= final(self).current,
            r is Ok ==> old(self).current < final(self).current,
            r matches Ok(c) ==> block_end(views(old(self).tokens@), (old(self).current - 2) as int, Ctx::Event) == Some(final(self).current as int)
                && event_read(views(old(self).tokens@), (old(self).current - 2) as int, c),
            event_sound(views(old(self).tokens@), (old(self).current - 2) as int, has_method) ==> r is Ok,
            event_body_sound(views(old(self).tokens@), (old(self).current - 2) as int) && stray_begin(views(old(self).tokens@), (old(self).current - 2) as int, Ctx::Event) ==> r == Err::<Event, ParseError>(ParseError::UnknownComponent),
    {
        proof {
            use_type_invariant(&*self);
        }
        let ghost s: int = (old(self).current - 2) as int;
        proof {
            assert(views(self.tokens@)[s] == self.tokens@[s]@);
            assert(views(self.tokens@)[s + 1] == self.tokens@[s + 1]@);
        }
        let ghost sound = event_sound(views(self.tokens@), s, has_method);
        proof {
            lemma_nested_names_differ();
            if sound {
                assert(block_end(views(self.tokens@), s, Ctx::Event) is Some);
                assert(body_end(views(self.tokens@), s + 2, Ctx::Event) is Some);
            }
        }
        let ghost stray = event_body_sound(views(self.tokens@), s) && stray_begin(views(self.tokens@), s, Ctx::Event);
        let mut b = EventParseBuilder::new();
        let ghost mut props: Seq<Property> = Seq::empty();
        let ghost mut positions: Seq<int> = Seq::empty();
        let ghost mut kids: Seq<int> = Seq::empty();
        let ghost mut kall: Seq<int> = Seq::empty();
        loop
            invariant
                self.tokens@ == old(self).tokens@,
                self.current <= self.tokens.len(),
                0 <= s, s + 2 <= self.current,
                s == (old(self).current - 2) as int,
                views(self.tokens@)[s].token_type == TokenType::Begin,
                views(self.tokens@)[s].literal == "VEVENT".spec_bytes(),
                views(self.tokens@)[s + 1].token_type == TokenType::Crlf,
                lines_at(views(self.tokens@), positions, props),
                within(positions, s, self.current as int),
                event_fold(props) matches Ok(q) && b.parts() == (EventParseParts { alarms: b.parts().alarms, ..q }),
                line_positions(views(self.tokens@), s + 2, Ctx::Event) == positions + line_positions(views(self.tokens@), self.current as int, Ctx::Event),
                body_end(views(self.tokens@), s + 2, Ctx::Event) == body_end(views(self.tokens@), self.current as int, Ctx::Event),
                sound == event_sound(views(self.tokens@), s, has_method),
                sound ==> body_end(views(self.tokens@), self.current as int, Ctx::Event) is Some,
                props.len() == positions.len(),
                stray == (event_body_sound(views(self.tokens@), s) && stray_begin(views(self.tokens@), s, Ctx::Event)),
                body_stop(views(self.tokens@), s + 2, Ctx::Event) == body_stop(views(self.tokens@), self.current as int, Ctx::Event),
                children(views(self.tokens@), s + 2, Ctx::Event, None) == kall + children(views(self.tokens@), self.current as int, Ctx::Event, None),
                children(views(self.tokens@), s + 2, Ctx::Event, None) == kids + children(views(self.tokens@), self.current as int, Ctx::Event, None),
                alarms_read(views(self.tokens@), kids, b.parts().alarms),
            ensures
                self.current < self.tokens.len() && self.tokens@[self.current as int]@.token_type == TokenType::End,
            decreases self.tokens.len() - self.current,
        {
            proof {
                use_type_invariant(&*self);
            }
            proof {
                lemma_nested_names_differ();
            }
            let ghost at = self.current as int;
            if self.check(TokenType::End)? {
                break;
            }
            if self.check(TokenType::Begin)? {
                let name = self.next_literal();
                if eq_str(name.as_slice(), "VALARM") {
                    let res = self.alarm();
                    let a = match res {
                        Ok(x) => x,
                        Err(e) => {
                            proof {
                                if sound {
                                    assert(views(self.tokens@)[at] == self.tokens@[at]@);
                                    let j = block_end(views(self.tokens@), at, Ctx::Alarm)->0;
                                    assert(children(views(self.tokens@), at, Ctx::Event, None) == seq![at] + children(views(self.tokens@), j, Ctx::Event, None));
                                    assert(children(views(self.tokens@), s + 2, Ctx::Event, None)[kall.len() as int] == at);
                                }
                                if stray {
                                    assert(views(self.tokens@)[at] == self.tokens@[at]@);
                                    if block_end(views(self.tokens@), at, Ctx::Alarm) is Some {
                                        let j = block_end(views(self.tokens@), at, Ctx::Alarm)->0;
                                        lemma_block_end_after(views(self.tokens@), at, Ctx::Alarm);
                                        assert(children(views(self.tokens@), at, Ctx::Event, None) == seq![at] + children(views(self.tokens@), j, Ctx::Event, None));
                                        assert(children(views(self.tokens@), s + 2, Ctx::Event, None)[kall.len() as int] == at);
                                    } else {
                                        assert(body_stop(views(self.tokens@), at, Ctx::Event) == at);
                                    }
                                }
                            }
                            return Err(e);
                        },
                    };
                    proof {
                        assert(views(self.tokens@)[at] == self.tokens@[at]@);
                        assert(nested_ok(Ctx::Event, views(self.tokens@)[at].literal) == Some(Ctx::Alarm));
                        let j = self.current as int;
                        assert(line_positions(views(self.tokens@), at, Ctx::Event) == line_positions(views(self.tokens@), j, Ctx::Event));
                        assert(body_end(views(self.tokens@), at, Ctx::Event) == body_end(views(self.tokens@), j, Ctx::Event));
                        assert(children(views(self.tokens@), at, Ctx::Event, None) == seq![at] + children(views(self.tokens@), j, Ctx::Event, None));
                        assert(kall.push(at) + children(views(self.tokens@), j, Ctx::Event, None) =~= kall + (seq![at] + children(views(self.tokens@), j, Ctx::Event, None)));
                        kall = kall.push(at);
                    }
                    proof {
                        let j = self.current as int;
                        assert(children(views(self.tokens@), at, Ctx::Event, None) == seq![at] + children(views(self.tokens@), j, Ctx::Event, None));
                        assert(kids.push(at) + children(views(self.tokens@), j, Ctx::Event, None) =~= kids + (seq![at] + children(views(self.tokens@), j, Ctx::Event, None)));
                        lemma_alarms_read_push(views(self.tokens@), kids, b.parts().alarms, at, a);
                        kids = kids.push(at);
                    }
                    b.push_alarms(a);
                } else if eq_str(name.as_slice(), "STANDARD") || eq_str(name.as_slice(), "DAYLIGHT") {
                    let (daylight, o) = self.tz_observance()?;
                    if daylight {
                        return Err(ParseError::UnexpectedComponent("DAYLIGHT"));
                    }
                    return Err(ParseError::UnexpectedComponent("STANDARD"));
                } else if eq_str(name.as_slice(), "AVAILABLE") {
                    let a = self.available()?;
                    return Err(ParseError::UnexpectedComponent("AVAILABLE"));
                } else {
                    return Err(ParseError::UnknownComponent);
                }
            } else {
                let pr = self.property("expected a property line");
                let p = match pr {
                    Ok(p) => p,
                    Err(e) => {
                        proof {
                            assert(views(self.tokens@)[at] == self.tokens@[at]@);
                            if at + 1 < views(self.tokens@).len() {
                                assert(views(self.tokens@)[at + 1] == self.tokens@[at + 1]@);
                            }
                            assert(!line_ok(Ctx::Event, views(self.tokens@), at));
                            assert(body_end(views(self.tokens@), at, Ctx::Event) is None);
                            assert(body_stop(views(self.tokens@), at, Ctx::Event) == at);
                        }
                        return Err(e);
                    },
                };
                let ghost before = b.parts();
                if let Err(e) = b.ingest(p) {
                    proof {
                        assert(views(self.tokens@)[at] == self.tokens@[at]@);
                        assert(views(self.tokens@)[at + 1] == self.tokens@[at + 1]@);
                        let lp = line_positions(views(self.tokens@), s + 2, Ctx::Event);
                        assert(line_ok(Ctx::Event, views(self.tokens@), at));
                        assert(line_positions(views(self.tokens@), at, Ctx::Event) == seq![at] + line_positions(views(self.tokens@), at + 2, Ctx::Event));
                        assert(lp.take(positions.len() + 1int) =~= positions.push(at));
                        lemma_lines_at_push(views(self.tokens@), positions, props, at, p);
                        assert(props.push(p).drop_last() =~= props);
                        assert(lines_at(views(self.tokens@), lp.take(props.push(p).len() as int), props.push(p)));
                        match event_fold(props) {
                            Ok(q) => {
                                lemma_event_ingest_nested(q, p, before.alarms);
                            },
                            Err(_) => {},
                        }
                        assert(event_fold(props.push(p)) is Err);
                    }
                    return Err(ParseError::Property(e));
                }
                proof {
                    assert(views(self.tokens@)[at] == self.tokens@[at]@);
                    assert(views(self.tokens@)[at + 1] == self.tokens@[at + 1]@);
                    assert(line_ok(Ctx::Event, views(self.tokens@), at));
                    assert(line_positions(views(self.tokens@), at, Ctx::Event) == seq![at] + line_positions(views(self.tokens@), at + 2, Ctx::Event));
                    assert(positions.push(at) + line_positions(views(self.tokens@), at + 2, Ctx::Event) =~= positions + (seq![at] + line_positions(views(self.tokens@), at + 2, Ctx::Event)));
                    assert(body_end(views(self.tokens@), at, Ctx::Event) == body_end(views(self.tokens@), at + 2, Ctx::Event));
                    assert(children(views(self.tokens@), at, Ctx::Event, None) == children(views(self.tokens@), at + 2, Ctx::Event, None));
                    assert(children(views(self.tokens@), at, Ctx::Event, None) == children(views(self.tokens@), at + 2, Ctx::Event, None));
                    lemma_lines_at_push(views(self.tokens@), positions, props, at, p);
                    assert(props.push(p).drop_last() =~= props);
                    match event_fold(props) {
                        Ok(q) => {
                            lemma_event_ingest_nested(q, p, before.alarms);
                        },
                        Err(_) => {},
                    }
                    props = props.push(p);
                    positions = positions.push(at);
                }
            }
        }
        let ghost endpos = self.current as int;
        proof {
            if sound {
                assert(views(self.tokens@)[endpos] == self.tokens@[endpos]@);
                assert(body_end(views(self.tokens@), s + 2, Ctx::Event) == Some(endpos));
                assert(block_end(views(self.tokens@), s, Ctx::Event) is Some);
                assert(views(self.tokens@)[endpos + 1] == self.tokens@[endpos + 1]@);
            }
        }
        self.end_of("VEVENT".as_bytes(), "expected component to end with END")?;
        proof {
            assert(views(self.tokens@)[endpos] == self.tokens@[endpos]@);
            assert(views(self.tokens@)[endpos + 1] == self.tokens@[endpos + 1]@);
            assert(line_positions(views(self.tokens@), endpos, Ctx::Event) =~= Seq::<int>::empty());
            assert(positions + Seq::<int>::empty() =~= positions);
            assert(body_end(views(self.tokens@), endpos, Ctx::Event) == Some(endpos));
            assert(body_stop(views(self.tokens@), endpos, Ctx::Event) == endpos);
            assert(children(views(self.tokens@), endpos, Ctx::Event, None) =~= Seq::<int>::empty());
            assert(kids + Seq::<int>::empty() =~= kids);
            assert(block_end(views(self.tokens@), s, Ctx::Event) == Some(endpos + 2));
            assert(lines_at(views(self.tokens@), line_positions(views(self.tokens@), s + 2, Ctx::Event), props));
        }
        let ghost bp = b.parts();
        match b.finish(has_method) {
            Ok(c) => {
                proof {
                    assert(lines_at(views(self.tokens@), line_positions(views(self.tokens@), s + 2, Ctx::Event), props));
                }
                Ok(c)
            },
            Err(e) => {
                proof {
                    if sound {
                        assert(lines_at(views(self.tokens@), line_positions(views(self.tokens@), s + 2, Ctx::Event), props));
                        assert(children(views(self.tokens@), s + 2, Ctx::Event, None) == kids);
                        assert(alarms_read(views(self.tokens@), children(views(self.tokens@), s + 2, Ctx::Event, None), bp.alarms));
                    }
                }
                Err(ParseError::Component(e))
            },
        }
    }

    /// Reads the body and the `END` line of a `VTODO` whose `BEGIN` line
    /// has been read.
    fn todo_body(&mut self, _has_method: bool) -> (r: Result<Todo, ParseError>)
        requires
            2 <= old(self).current <= old(self).tokens.len(),
            old(self).tokens@[old(self).current - 2]@.token_type == TokenType::Begin,
            old(self).tokens@[old(self).current - 2]@.literal == "VTODO".spec_bytes(),
            old(self).tokens@[old(self).current - 1]@.token_type == TokenType::Crlf,
        ensures
            final(self).tokens@ == old(self).tokens@,
            final(self).current <= final(self).tokens.len(),
            old(self).current <= final(self).current,
            r is Ok ==> old(self).current < final(self).current,
            r matches Ok(c) ==> block_end(views(old(self).tokens@), (old(self).current - 2) as int, Ctx::Todo) == Some(final(self).current as int)
                && todo_read(views(old(self).tokens@), (old(self).current - 2) as int, c),
            todo_sound(views(old(self).tokens@), (old(self).current - 2) as int) ==> r is Ok,
            todo_body_sound(views(old(self).tokens@), (old(self).current - 2) as int) && stray_begin(views(old(self).tokens@), (old(self).current - 2) as int, Ctx::Todo) ==> r == Err::<Todo, ParseError>(ParseError::UnknownComponent),
    {
        proof {
            use_type_invariant(&*self);
        }
        let ghost s: int = (old(self).current - 2) as int;
        proof {
            assert(views(self.tokens@)[s] == self.tokens@[s]@);
            assert(views(self.tokens@)[s + 1] == self.tokens@[s + 1]@);
        }
        let ghost sound = todo_sound(views(self.tokens@), s);
        proof {
            lemma_nested_names_differ();
            if sound {
                assert(block_end(views(self.tokens@), s, Ctx::Todo) is Some);
                assert(body_end(views(self.tokens@), s + 2, Ctx::Todo) is Some);
            }
        }
        let ghost stray = todo_body_sound(views(self.tokens@), s) && stray_begin(views(self.tokens@), s, Ctx::Todo);
        let mut b = TodoParseBuilder::new();
        let ghost mut props: Seq<Property> = Seq::empty();
        let ghost mut positions: Seq<int> = Seq::empty();
        let ghost mut kids: Seq<int> = Seq::empty();
        let ghost mut kall: Seq<int> = Seq::empty();
        loop
            invariant
                self.tokens@ == old(self).tokens@,
                self.current <= self.tokens.len(),
                0 <= s, s + 2 <= self.current,
                s == (old(self).current - 2) as int,
                views(self.tokens@)[s].token_type == TokenType::Begin,
                views(self.tokens@)[s].literal == "VTODO".spec_bytes(),
                views(self.tokens@)[s + 1].token_type == TokenType::Crlf,
                lines_at(views(self.tokens@), positions, props),
                within(positions, s, self.current as int),
                todo_fold(props) matches Ok(q) && b.parts() == (TodoParseParts { alarms: b.parts().alarms, ..q }),
                line_positions(views(self.tokens@), s + 2, Ctx::Todo) == positions + line_positions(views(self.tokens@), self.current as int, Ctx::Todo),
                body_end(views(self.tokens@), s + 2, Ctx::Todo) == body_end(views(self.tokens@), self.current as int, Ctx::Todo),
                sound == todo_sound(views(self.tokens@), s),
                sound ==> body_end(views(self.tokens@), self.current as int, Ctx::Todo) is Some,
                props.len() == positions.len(),
                stray == (todo_body_sound(views(self.tokens@), s) && stray_begin(views(self.tokens@), s, Ctx::Todo)),
                body_stop(views(self.tokens@), s + 2, Ctx::Todo) == body_stop(views(self.tokens@), self.current as int, Ctx::Todo),
                children(views(self.tokens@), s + 2, Ctx::Todo, None) == kall + children(views(self.tokens@), self.current as int, Ctx::Todo, None),
                children(views(self.tokens@), s + 2, Ctx::Todo, None) == kids + children(views(self.tokens@), self.current as int, Ctx::Todo, None),
                alarms_read(views(self.tokens@), kids, b.parts().alarms),
            ensures
                self.current < self.tokens.len() && self.tokens@[self.current as int]@.token_type == TokenType::End,
            decreases self.tokens.len() - self.current,
        {
            proof {
                use_type_invariant(&*self);
            }
            proof {
                lemma_nested_names_differ();
            }
            let ghost at = self.current as int;
            if self.check(TokenType::End)? {
                break;
            }
            if self.check(TokenType::Begin)? {
                let name = self.next_literal();
                if eq_str(name.as_slice(), "VALARM") {
                    let res = self.alarm();
                    let a = match res {
                        Ok(x) => x,
                        Err(e) => {
                            proof {
                                if sound {
                                    assert(views(self.tokens@)[at] == self.tokens@[at]@);
                                    let j = block_end(views(self.tokens@), at, Ctx::Alarm)->0;
                                    assert(children(views(self.tokens@), at, Ctx::Todo, None) == seq![at] + children(views(self.tokens@), j, Ctx::Todo, None));
                                    assert(children(views(self.tokens@), s + 2, Ctx::Todo, None)[kall.len() as int] == at);
                                }
                                if stray {
                                    assert(views(self.tokens@)[at] == self.tokens@[at]@);
                                    if block_end(views(self.tokens@), at, Ctx::Alarm) is Some {
                                        let j = block_end(views(self.tokens@), at, Ctx::Alarm)->0;
                                        lemma_block_end_after(views(self.tokens@), at, Ctx::Alarm);
                                        assert(children(views(self.tokens@), at, Ctx::Todo, None) == seq![at] + children(views(self.tokens@), j, Ctx::Todo, None));
                                        assert(children(views(self.tokens@), s + 2, Ctx::Todo, None)[kall.len() as int] == at);
                                    } else {
                                        assert(body_stop(views(self.tokens@), at, Ctx::Todo) == at);
                                    }
                                }
                            }
                            return Err(e);
                        },
                    };
                    proof {
                        assert(views(self.tokens@)[at] == self.tokens@[at]@);
                        assert(nested_ok(Ctx::Todo, views(self.tokens@)[at].literal) == Some(Ctx::Alarm));
                        let j = self.current as int;
                        assert(line_positions(views(self.tokens@), at, Ctx::Todo) == line_positions(views(self.tokens@), j, Ctx::Todo));
                        assert(body_end(views(self.tokens@), at, Ctx::Todo) == body_end(views(self.tokens@), j, Ctx::Todo));
                        assert(children(views(self.tokens@), at, Ctx::Todo, None) == seq![at] + children(views(self.tokens@), j, Ctx::Todo, None));
                        assert(kall.push(at) + children(views(self.tokens@), j, Ctx::Todo, None) =~= kall + (seq![at] + children(views(self.tokens@), j, Ctx::Todo, None)));
                        kall = kall.push(at);
                    }
                    proof {
                        let j = self.current as int;
                        assert(children(views(self.tokens@), at, Ctx::Todo, None) == seq![at] + children(views(self.tokens@), j, Ctx::Todo, None));
                        assert(kids.push(at) + children(views(self.tokens@), j, Ctx::Todo, None) =~= kids + (seq![at] + children(views(self.tokens@), j, Ctx::Todo, None)));
                        lemma_alarms_read_push(views(self.tokens@), kids, b.parts().alarms, at, a);
                        kids = kids.push(at);
                    }
                    b.push_alarms(a);
                } else if eq_str(name.as_slice(), "STANDARD") || eq_str(name.as_slice(), "DAYLIGHT") {
                    let (daylight, o) = self.tz_observance()?;
                    if daylight {
                        return Err(ParseError::UnexpectedComponent("DAYLIGHT"));
                    }
                    return Err(ParseError::UnexpectedComponent("STANDARD"));
                } else if eq_str(name.as_slice(), "AVAILABLE") {
                    let a = self.available()?;
                    return Err(ParseError::UnexpectedComponent("AVAILABLE"));
                } else {
                    return Err(ParseError::UnknownComponent);
                }
            } else {
                let pr = self.property("expected a property line");
                let p = match pr {
                    Ok(p) => p,
                    Err(e) => {
                        proof {
                            assert(views(self.tokens@)[at] == self.tokens@[at]@);
                            if at + 1 < views(self.tokens@).len() {
                                assert(views(self.tokens@)[at + 1] == self.tokens@[at + 1]@);
                            }
                            assert(!line_ok(Ctx::Todo, views(self.tokens@), at));
                            assert(body_end(views(self.tokens@), at, Ctx::Todo) is None);
                            assert(body_stop(views(self.tokens@), at, Ctx::Todo) == at);
                        }
                        return Err(e);
                    },
                };
                let ghost before = b.parts();
                if let Err(e) = b.ingest(p) {
                    proof {
                        assert(views(self.tokens@)[at] == self.tokens@[at]@);
                        assert(views(self.tokens@)[at + 1] == self.tokens@[at + 1]@);
                        let lp = line_positions(views(self.tokens@), s + 2, Ctx::Todo);
                        assert(line_ok(Ctx::Todo, views(self.tokens@), at));
                        assert(line_positions(views(self.tokens@), at, Ctx::Todo) == seq![at] + line_positions(views(self.tokens@), at + 2, Ctx::Todo));
                        assert(lp.take(positions.len() + 1int) =~= positions.push(at));
                        lemma_lines_at_push(views(self.tokens@), positions, props, at, p);
                        assert(props.push(p).drop_last() =~= props);
                        assert(lines_at(views(self.tokens@), lp.take(props.push(p).len() as int), props.push(p)));
                        match todo_fold(props) {
                            Ok(q) => {
                                lemma_todo_ingest_nested(q, p, before.alarms);
                            },
                            Err(_) => {},
                        }
                        assert(todo_fold(props.push(p)) is Err);
                    }
                    return Err(ParseError::Property(e));
                }
                proof {
                    assert(views(self.tokens@)[at] == self.tokens@[at]@);
                    assert(views(self.tokens@)[at + 1] == self.tokens@[at + 1]@);
                    assert(line_ok(Ctx::Todo, views(self.tokens@), at));
                    assert(line_positions(views(self.tokens@), at, Ctx::Todo) == seq![at] + line_positions(views(self.tokens@), at + 2, Ctx::Todo));
                    assert(positions.push(at) + line_positions(views(self.tokens@), at + 2, Ctx::Todo) =~= positions + (seq![at] + line_positions(views(self.tokens@), at + 2, Ctx::Todo)));
                    assert(body_end(views(self.tokens@), at, Ctx::Todo) == body_end(views(self.tokens@), at + 2, Ctx::Todo));
                    assert(children(views(self.tokens@), at, Ctx::Todo, None) == children(views(self.tokens@), at + 2, Ctx::Todo, None));
                    assert(children(views(self.tokens@), at, Ctx::Todo, None) == children(views(self.tokens@), at + 2, Ctx::Todo, None));
                    lemma_lines_at_push(views(self.tokens@), positions, props, at, p);
                    assert(props.push(p).drop_last() =~= props);
                    match todo_fold(props) {
                        Ok(q) => {
                            lemma_todo_ingest_nested(q, p, before.alarms);
                        },
                        Err(_) => {},
                    }
                    props = props.push(p);
                    positions = positions.push(at);
                }
            }
        }
        let ghost endpos = self.current as int;
        proof {
            if sound {
                assert(views(self.tokens@)[endpos] == self.tokens@[endpos]@);
                assert(body_end(views(self.tokens@), s + 2, Ctx::Todo) == Some(endpos));
                assert(block_end(views(self.tokens@), s, Ctx::Todo) is Some);
                assert(views(self.tokens@)[endpos + 1] == self.tokens@[endpos + 1]@);
            }
        }
        self.end_of("VTODO".as_bytes(), "expected component to end with END")?;
        proof {
            assert(views(self.tokens@)[endpos] == self.tokens@[endpos]@);
            assert(views(self.tokens@)[endpos + 1] == self.tokens@[endpos + 1]@);
            assert(line_positions(views(self.tokens@), endpos, Ctx::Todo) =~= Seq::<int>::empty());
            assert(positions + Seq::<int>::empty() =~= positions);
            assert(body_end(views(self.tokens@), endpos, Ctx::Todo) == Some(endpos));
            assert(body_stop(views(self.tokens@), endpos, Ctx::Todo) == endpos);
            assert(children(views(self.tokens@), endpos, Ctx::Todo, None) =~= Seq::<int>::empty());
            assert(kids + Seq::<int>::empty() =~= kids);
            assert(block_end(views(self.tokens@), s, Ctx::Todo) == Some(endpos + 2));
            assert(lines_at(views(self.tokens@), line_positions(views(self.tokens@), s + 2, Ctx::Todo), props));
        }
        let ghost bp = b.parts();
        match b.finish() {
            Ok(c) => {
                proof {
                    assert(lines_at(views(self.tokens@), line_positions(views(self.tokens@), s + 2, Ctx::Todo), props));
                }
                Ok(c)
            },
            Err(e) => {
                proof {
                    if sound {
                        assert(lines_at(views(self.tokens@), line_positions(views(self.tokens@), s + 2, Ctx::Todo), props));
                        assert(children(views(self.tokens@), s + 2, Ctx::Todo, None) == kids);
                        assert(alarms_read(views(self.tokens@), children(views(self.tokens@), s + 2, Ctx::Todo, None), bp.alarms));
                    }
                }
                Err(ParseError::Component(e))
            },
        }
    }

    /// Reads the body and the `END` line of a `VJOURNAL` whose `BEGIN` line
    /// has been read.
    fn journal_body(&mut self, _has_method: bool) -> (r: Result<Journal, ParseError>)
        requires
            2 <= old(self).current <= old(self).tokens.len(),
            old(self).tokens@[old(self).current - 2]@.token_type == TokenType::Begin,
            old(self).tokens@[old(self).current - 2]@.literal == "VJOURNAL".spec_bytes(),
            old(self).tokens@[old(self).current - 1]@.token_type == TokenType::Crlf,
        ensures
            final(self).tokens@ == old(self).tokens@,
            final(self).current <= final(self).tokens.len(),
            old(self).current <= final(self).current,
            r is Ok ==> old(self).current < final(self).current,
            r matches Ok(c) ==> block_end(views(old(self).tokens@), (old(self).current - 2) as int, Ctx::Journal) == Some(final(self).current as int)
                && journal_read(views(old(self).tokens@), (old(self).current - 2) as int, c),
            journal_sound(views(old(self).tokens@), (old(self).current - 2) as int) ==> r is Ok,
            journal_body_sound(views(old(self).tokens@), (old(self).current - 2) as int) && stray_begin(views(old(self).tokens@), (old(self).current - 2) as int, Ctx::Journal) ==> r == Err::<Journal, ParseError>(ParseError::UnknownComponent),
    {
        proof {
            use_type_invariant(&*self);
        }
        let ghost s: int = (old(self).current - 2) as int;
        proof {
            assert(views(self.tokens@)[s] == self.tokens@[s]@);
            assert(views(self.tokens@)[s + 1] == self.tokens@[s + 1]@);
        }
        let ghost sound = journal_sound(views(self.tokens@), s);
        proof {
            lemma_nested_names_differ();
            if sound {
                assert(block_end(views(self.tokens@), s, Ctx::Journal) is Some);
                assert(body_end(views(self.tokens@), s + 2, Ctx::Journal) is Some);
            }
        }
        let ghost stray = journal_body_sound(views(self.tokens@), s) && stray_begin(views(self.tokens@), s, Ctx::Journal);
        let mut b = JournalParseBuilder::new();
        let ghost mut props: Seq<Property> = Seq::empty();
        let ghost mut positions: Seq<int> = Seq::empty();
        loop
            invariant
                self.tokens@ == old(self).tokens@,
                self.current <= self.tokens.len(),
                0 <= s, s + 2 <= self.current,
                s == (old(self).current - 2) as int,
                views(self.tokens@)[s].token_type == TokenType::Begin,
                views(self.tokens@)[s].literal == "VJOURNAL".spec_bytes(),
                views(self.tokens@)[s + 1].token_type == TokenType::Crlf,
                lines_at(views(self.tokens@), positions, props),
                within(positions, s, self.current as int),
                journal_fold(props) == Ok::<JournalParseParts, PropertyError>(b.parts()),
                line_positions(views(self.tokens@), s + 2, Ctx::Journal) == positions + line_positions(views(self.tokens@), self.current as int, Ctx::Journal),
                body_end(views(self.tokens@), s + 2, Ctx::Journal) == body_end(views(self.tokens@), self.current as int, Ctx::Journal),
                sound == journal_sound(views(self.tokens@), s),
                sound ==> body_end(views(self.tokens@), self.current as int, Ctx::Journal) is Some,
                props.len() == positions.len(),
                stray == (journal_body_sound(views(self.tokens@), s) && stray_begin(views(self.tokens@), s, Ctx::Journal)),
                body_stop(views(self.tokens@), s + 2, Ctx::Journal) == body_stop(views(self.tokens@), self.current as int, Ctx::Journal),
            ensures
                self.current < self.tokens.len() && self.tokens@[self.current as int]@.token_type == TokenType::End,
            decreases self.tokens.len() - self.current,
        {
            proof {
                use_type_invariant(&*self);
            }
            proof {
                lemma_nested_names_differ();
            }
            let ghost at = self.current as int;
            if self.check(TokenType::End)? {
                break;
            }
            if self.check(TokenType::Begin)? {
                let name = self.next_literal();
                if eq_str(name.as_slice(), "VALARM") {
                    let a = self.alarm()?;
                    return Err(ParseError::UnexpectedComponent("VALARM"));
                } else if eq_str(name.as_slice(), "STANDARD") || eq_str(name.as_slice(), "DAYLIGHT") {
                    let (daylight, o) = self.tz_observance()?;
                    if daylight {
                        return Err(ParseError::UnexpectedComponent("DAYLIGHT"));
                    }
                    return Err(ParseError::UnexpectedComponent("STANDARD"));
                } else if eq_str(name.as_slice(), "AVAILABLE") {
                    let a = self.available()?;
                    return Err(ParseError::UnexpectedComponent("AVAILABLE"));
                } else {
                    return Err(ParseError::UnknownComponent);
                }
            } else {
                let pr = self.property("expected a property line");
                let p = match pr {
                    Ok(p) => p,
                    Err(e) => {
                        proof {
                            assert(views(self.tokens@)[at] == self.tokens@[at]@);
                            if at + 1 < views(self.tokens@).len() {
                                assert(views(self.tokens@)[at + 1] == self.tokens@[at + 1]@);
                            }
                            assert(!line_ok(Ctx::Journal, views(self.tokens@), at));
                            assert(body_end(views(self.tokens@), at, Ctx::Journal) is None);
                            assert(body_stop(views(self.tokens@), at, Ctx::Journal) == at);
                        }
                        return Err(e);
                    },
                };
                let ghost before = b.parts();
                if let Err(e) = b.ingest(p) {
                    proof {
                        assert(views(self.tokens@)[at] == self.tokens@[at]@);
                        assert(views(self.tokens@)[at + 1] == self.tokens@[at + 1]@);
                        let lp = line_positions(views(self.tokens@), s + 2, Ctx::Journal);
                        assert(line_ok(Ctx::Journal, views(self.tokens@), at));
                        assert(line_positions(views(self.tokens@), at, Ctx::Journal) == seq![at] + line_positions(views(self.tokens@), at + 2, Ctx::Journal));
                        assert(lp.take(positions.len() + 1int) =~= positions.push(at));
                        lemma_lines_at_push(views(self.tokens@), positions, props, at, p);
                        assert(props.push(p).drop_last() =~= props);
                        assert(lines_at(views(self.tokens@), lp.take(props.push(p).len() as int), props.push(p)));
                        assert(journal_fold(props.push(p)) is Err);
                    }
                    return Err(ParseError::Property(e));
                }
                proof {
                    assert(views(self.tokens@)[at] == self.tokens@[at]@);
                    assert(views(self.tokens@)[at + 1] == self.tokens@[at + 1]@);
                    assert(line_ok(Ctx::Journal, views(self.tokens@), at));
                    assert(line_positions(views(self.tokens@), at, Ctx::Journal) == seq![at] + line_positions(views(self.tokens@), at + 2, Ctx::Journal));
                    assert(positions.push(at) + line_positions(views(self.tokens@), at + 2, Ctx::Journal) =~= positions + (seq![at] + line_positions(views(self.tokens@), at + 2, Ctx::Journal)));
                    assert(body_end(views(self.tokens@), at, Ctx::Journal) == body_end(views(self.tokens@), at + 2, Ctx::Journal));
                    lemma_lines_at_push(views(self.tokens@), positions, props, at, p);
                    assert(props.push(p).drop_last() =~= props);
                    props = props.push(p);
                    positions = positions.push(at);
                }
            }
        }
        let ghost endpos = self.current as int;
        proof {
            if sound {
                assert(views(self.tokens@)[endpos] == self.tokens@[endpos]@);
                assert(body_end(views(self.tokens@), s + 2, Ctx::Journal) == Some(endpos));
                assert(block_end(views(self.tokens@), s, Ctx::Journal) is Some);
                assert(views(self.tokens@)[endpos + 1] == self.tokens@[endpos + 1]@);
            }
        }
        self.end_of("VJOURNAL".as_bytes(), "expected component to end with END")?;
        proof {
            assert(views(self.tokens@)[endpos] == self.tokens@[endpos]@);
            assert(views(self.tokens@)[endpos + 1] == self.tokens@[endpos + 1]@);
            assert(line_positions(views(self.tokens@), endpos, Ctx::Journal) =~= Seq::<int>::empty());
            assert(positions + Seq::<int>::empty() =~= positions);
            assert(body_end(views(self.tokens@), endpos, Ctx::Journal) == Some(endpos));
            assert(body_stop(views(self.tokens@), endpos, Ctx::Journal) == endpos);
            assert(block_end(views(self.tokens@), s, Ctx::Journal) == Some(endpos + 2));
            assert(lines_at(views(self.tokens@), line_positions(views(self.tokens@), s + 2, Ctx::Journal), props));
        }
        let ghost bp = b.parts();
        match b.finish() {
            Ok(c) => {
                proof {
                    assert(lines_at(views(self.tokens@), line_positions(views(self.tokens@), s + 2, Ctx::Journal), props));
                }
                Ok(c)
            },
            Err(e) => {
                proof {
                    if sound {
                        assert(lines_at(views(self.tokens@), line_positions(views(self.tokens@), s + 2, Ctx::Journal), props));
                    }
                }
                Err(ParseError::Component(e))
            },
        }
    }

    /// Reads the body and the `END` line of a `VFREEBUSY` whose `BEGIN` line
    /// has been read.
    fn free_busy_body(&mut self, _has_method: bool) -> (r: Result<FreeBusy, ParseError>)
        requires
            2 <= old(self).current <= old(self).tokens.len(),
            old(self).tokens@[old(self).current - 2]@.token_type == TokenType::Begin,
            old(self).tokens@[old(self).current - 2]@.literal == "VFREEBUSY".spec_bytes(),
            old(self).tokens@[old(self).current - 1]@.token_type == TokenType::Crlf,
        ensures
            final(self).tokens@ == old(self).tokens@,
            final(self).current <= final(self).tokens.len(),
            old(self).current <= final(self).current,
            r is Ok ==> old(self).current < final(self).current,
            r matches Ok(c) ==> block_end(views(old(self).tokens@), (old(self).current - 2) as int, Ctx::FreeBusy) == Some(final(self).current as int)
                && free_busy_read(views(old(self).tokens@), (old(self).current - 2) as int, c),
            free_busy_sound(views(old(self).tokens@), (old(self).current - 2) as int) ==> r is Ok,
            free_busy_body_sound(views(old(self).tokens@), (old(self).current - 2) as int) && stray_begin(views(old(self).tokens@), (old(self).current - 2) as int, Ctx::FreeBusy) ==> r == Err::<FreeBusy, ParseError>(ParseError::UnknownComponent),
    {
        proof {
            use_type_invariant(&*self);
        }
        let ghost s: int = (old(self).current - 2) as int;
        proof {
            assert(views(self.tokens@)[s] == self.tokens@[s]@);
            assert(views(self.tokens@)[s + 1] == self.tokens@[s + 1]@);
        }
        let ghost sound = free_busy_sound(views(self.tokens@), s);
        proof {
            lemma_nested_names_differ();
            if sound {
                assert(block_end(views(self.tokens@), s, Ctx::FreeBusy) is Some);
                assert(body_end(views(self.tokens@), s + 2, Ctx::FreeBusy) is Some);
            }
        }
        let ghost stray = free_busy_body_sound(views(self.tokens@), s) && stray_begin(views(self.tokens@), s, Ctx::FreeBusy);
        let mut b = FreeBusyParseBuilder::new();
        let ghost mut props: Seq<Property> = Seq::empty();
        let ghost mut positions: Seq<int> = Seq::empty();
        loop
            invariant
                self.tokens@ == old(self).tokens@,
                self.current <= self.tokens.len(),
                0 <= s, s + 2 <= self.current,
                s == (old(self).current - 2) as int,
                views(self.tokens@)[s].token_type == TokenType::Begin,
                views(self.tokens@)[s].literal == "VFREEBUSY".spec_bytes(),
                views(self.tokens@)[s + 1].token_type == TokenType::Crlf,
                lines_at(views(self.tokens@), positions, props),
                within(positions, s, self.current as int),
                free_busy_fold(props) == Ok::<FreeBusyParseParts, PropertyError>(b.parts()),
                line_positions(views(self.tokens@), s + 2, Ctx::FreeBusy) == positions + line_positions(views(self.tokens@), self.current as int, Ctx::FreeBusy),
                body_end(views(self.tokens@), s + 2, Ctx::FreeBusy) == body_end(views(self.tokens@), self.current as int, Ctx::FreeBusy),
                sound == free_busy_sound(views(self.tokens@), s),
                sound ==> body_end(views(self.tokens@), self.current as int, Ctx::FreeBusy) is Some,
                props.len() == positions.len(),
                stray == (free_busy_body_sound(views(self.tokens@), s) && stray_begin(views(self.tokens@), s, Ctx::FreeBusy)),
                body_stop(views(self.tokens@), s + 2, Ctx::FreeBusy) == body_stop(views(self.tokens@), self.current as int, Ctx::FreeBusy),
            ensures
                self.current < self.tokens.len() && self.tokens@[self.current as int]@.token_type == TokenType::End,
            decreases self.tokens.len() - self.current,
        {
            proof {
                use_type_invariant(&*self);
            }
            proof {
                lemma_nested_names_differ();
            }
            let ghost at = self.current as int;
            if self.check(TokenType::End)? {
                break;
            }
            if self.check(TokenType::Begin)? {
                let name = self.next_literal();
                if eq_str(name.as_slice(), "VALARM") {
                    let a = self.alarm()?;
                    return Err(ParseError::UnexpectedComponent("VALARM"));
                } else if eq_str(name.as_slice(), "STANDARD") || eq_str(name.as_slice(), "DAYLIGHT") {
                    let (daylight, o) = self.tz_observance()?;
                    if daylight {
                        return Err(ParseError::UnexpectedComponent("DAYLIGHT"));
                    }
                    return Err(ParseError::UnexpectedComponent("STANDARD"));
                } else if eq_str(name.as_slice(), "AVAILABLE") {
                    let a = self.available()?;
                    return Err(ParseError::UnexpectedComponent("AVAILABLE"));
                } else {
                    return Err(ParseError::UnknownComponent);
                }
            } else {
                let pr = self.property("expected a property line");
                let p = match pr {
                    Ok(p) => p,
                    Err(e) => {
                        proof {
                            assert(views(self.tokens@)[at] == self.tokens@[at]@);
                            if at + 1 < views(self.tokens@).len() {
                                assert(views(self.tokens@)[at + 1] == self.tokens@[at + 1]@);
                            }
                            assert(!line_ok(Ctx::FreeBusy, views(self.tokens@), at));
                            assert(body_end(views(self.tokens@), at, Ctx::FreeBusy) is None);
                            assert(body_stop(views(self.tokens@), at, Ctx::FreeBusy) == at);
                        }
                        return Err(e);
                    },
                };
                let ghost before = b.parts();
                if let Err(e) = b.ingest(p) {
                    proof {
                        assert(views(self.tokens@)[at] == self.tokens@[at]@);
                        assert(views(self.tokens@)[at + 1] == self.tokens@[at + 1]@);
                        let lp = line_positions(views(self.tokens@), s + 2, Ctx::FreeBusy);
                        assert(line_ok(Ctx::FreeBusy, views(self.tokens@), at));
                        assert(line_positions(views(self.tokens@), at, Ctx::FreeBusy) == seq![at] + line_positions(views(self.tokens@), at + 2, Ctx::FreeBusy));
                        assert(lp.take(positions.len() + 1int) =~= positions.push(at));
                        lemma_lines_at_push(views(self.tokens@), positions, props, at, p);
                        assert(props.push(p).drop_last() =~= props);
                        assert(lines_at(views(self.tokens@), lp.take(props.push(p).len() as int), props.push(p)));
                        assert(free_busy_fold(props.push(p)) is Err);
                    }
                    return Err(ParseError::Property(e));
                }
                proof {
                    assert(views(self.tokens@)[at] == self.tokens@[at]@);
                    assert(views(self.tokens@)[at + 1] == self.tokens@[at + 1]@);
                    assert(line_ok(Ctx::FreeBusy, views(self.tokens@), at));
                    assert(line_positions(views(self.tokens@), at, Ctx::FreeBusy) == seq![at] + line_positions(views(self.tokens@), at + 2, Ctx::FreeBusy));
                    assert(positions.push(at) + line_positions(views(self.tokens@), at + 2, Ctx::FreeBusy) =~= positions + (seq![at] + line_positions(views(self.tokens@), at + 2, Ctx::FreeBusy)));
                    assert(body_end(views(self.tokens@), at, Ctx::FreeBusy) == body_end(views(self.tokens@), at + 2, Ctx::FreeBusy));
                    lemma_lines_at_push(views(self.tokens@), positions, props, at, p);
                    assert(props.push(p).drop_last() =~= props);
                    props = props.push(p);
                    positions = positions.push(at);
                }
            }
        }
        let ghost endpos = self.current as int;
        proof {
            if sound {
                assert(views(self.tokens@)[endpos] == self.tokens@[endpos]@);
                assert(body_end(views(self.tokens@), s + 2, Ctx::FreeBusy) == Some(endpos));
                assert(block_end(views(self.tokens@), s, Ctx::FreeBusy) is Some);
                assert(views(self.tokens@)[endpos + 1] == self.tokens@[endpos + 1]@);
            }
        }
        self.end_of("VFREEBUSY".as_bytes(), "expected component to end with END")?;
        proof {
            assert(views(self.tokens@)[endpos] == self.tokens@[endpos]@);
            assert(views(self.tokens@)[endpos + 1] == self.tokens@[endpos + 1]@);
            assert(line_positions(views(self.tokens@), endpos, Ctx::FreeBusy) =~= Seq::<int>::empty());
            assert(positions + Seq::<int>::empty() =~= positions);
            assert(body_end(views(self.tokens@), endpos, Ctx::FreeBusy) == Some(endpos));
            assert(body_stop(views(self.tokens@), endpos, Ctx::FreeBusy) == endpos);
            assert(block_end(views(self.tokens@), s, Ctx::FreeBusy) == Some(endpos + 2));
            assert(lines_at(views(self.tokens@), line_positions(views(self.tokens@), s + 2, Ctx::FreeBusy), props));
        }
        let ghost bp = b.parts();
        match b.finish() {
            Ok(c) => {
                proof {
                    assert(lines_at(views(self.tokens@), line_positions(views(self.tokens@), s + 2, Ctx::FreeBusy), props));
                }
                Ok(c)
            },
            Err(e) => {
                proof {
                    if sound {
                        assert(lines_at(views(self.tokens@), line_positions(views(self.tokens@), s + 2, Ctx::FreeBusy), props));
                    }
                }
                Err(ParseError::Component(e))
            },
        }
    }

    /// Reads the body and the `END` line of a `VTIMEZONE` whose `BEGIN` line
    /// has been read.
    fn timezone_body(&mut self, _has_method: bool) -> (r: Result<Timezone, ParseError>)
        requires
            2 <= old(self).current <= old(self).tokens.len(),
            old(self).tokens@[old(self).current - 2]@.token_type == TokenType::Begin,
            old(self).tokens@[old(self).current - 2]@.literal == "VTIMEZONE".spec_bytes(),
            old(self).tokens@[old(self).current - 1]@.token_type == TokenType::Crlf,
        ensures
            final(self).tokens@ == old(self).tokens@,
            final(self).current <= final(self).tokens.len(),
            old(self).current <= final(self).current,
            r is Ok ==> old(self).current < final(self).current,
            r matches Ok(c) ==> block_end(views(old(self).tokens@), (old(self).current - 2) as int, Ctx::Timezone) == Some(final(self).current as int)
                && timezone_read(views(old(self).tokens@), (old(self).current - 2) as int, c),
            timezone_sound(views(old(self).tokens@), (old(self).current - 2) as int) ==> r is Ok,
            timezone_body_sound(views(old(self).tokens@), (old(self).current - 2) as int) && stray_begin(views(old(self).tokens@), (old(self).current - 2) as int, Ctx::Timezone) ==> r == Err::<Timezone, ParseError>(ParseError::UnknownComponent),
    {
        proof {
            use_type_invariant(&*self);
        }
        let ghost s: int = (old(self).current - 2) as int;
        proof {
            assert(views(self.tokens@)[s] == self.tokens@[s]@);
            assert(views(self.tokens@)[s + 1] == self.tokens@[s + 1]@);
        }
        let ghost sound = timezone_sound(views(self.tokens@), s);
        proof {
            lemma_nested_names_differ();
            if sound {
                assert(block_end(views(self.tokens@), s, Ctx::Timezone) is Some);
                assert(body_end(views(self.tokens@), s + 2, Ctx::Timezone) is Some);
            }
        }
        let ghost stray = timezone_body_sound(views(self.tokens@), s) && stray_begin(views(self.tokens@), s, Ctx::Timezone);
        let mut b = TimezoneParseBuilder::new();
        let ghost mut props: Seq<Property> = Seq::empty();
        let ghost mut positions: Seq<int> = Seq::empty();
        let ghost mut kstd: Seq<int> = Seq::empty();
        let ghost mut kday: Seq<int> = Seq::empty();
        let ghost mut kall: Seq<int> = Seq::empty();
        loop
            invariant
                self.tokens@ == old(self).tokens@,
                self.current <= self.tokens.len(),
                0 <= s, s + 2 <= self.current,
                s == (old(self).current - 2) as int,
                views(self.tokens@)[s].token_type == TokenType::Begin,
                views(self.tokens@)[s].literal == "VTIMEZONE".spec_bytes(),
                views(self.tokens@)[s + 1].token_type == TokenType::Crlf,
                lines_at(views(self.tokens@), positions, props),
                within(positions, s, self.current as int),
                timezone_fold(props) matches Ok(q) && b.parts() == (TimezoneParseParts { standardc: b.parts().standardc, daylightc: b.parts().daylightc, ..q }),
                line_positions(views(self.tokens@), s + 2, Ctx::Timezone) == positions + line_positions(views(self.tokens@), self.current as int, Ctx::Timezone),
                body_end(views(self.tokens@), s + 2, Ctx::Timezone) == body_end(views(self.tokens@), self.current as int, Ctx::Timezone),
                sound == timezone_sound(views(self.tokens@), s),
                sound ==> body_end(views(self.tokens@), self.current as int, Ctx::Timezone) is Some,
                props.len() == positions.len(),
                stray == (timezone_body_sound(views(self.tokens@), s) && stray_begin(views(self.tokens@), s, Ctx::Timezone)),
                body_stop(views(self.tokens@), s + 2, Ctx::Timezone) == body_stop(views(self.tokens@), self.current as int, Ctx::Timezone),
                children(views(self.tokens@), s + 2, Ctx::Timezone, None) == kall + children(views(self.tokens@), self.current as int, Ctx::Timezone, None),
                children(views(self.tokens@), s + 2, Ctx::Timezone, Some("STANDARD".spec_bytes())) == kstd + children(views(self.tokens@), self.current as int, Ctx::Timezone, Some("STANDARD".spec_bytes())),
                observances_read(views(self.tokens@), kstd, b.parts().standardc),
                children(views(self.tokens@), s + 2, Ctx::Timezone, Some("DAYLIGHT".spec_bytes())) == kday + children(views(self.tokens@), self.current as int, Ctx::Timezone, Some("DAYLIGHT".spec_bytes())),
                observances_read(views(self.tokens@), kday, b.parts().daylightc),
            ensures
                self.current < self.tokens.len() && self.tokens@[self.current as int]@.token_type == TokenType::End,
            decreases self.tokens.len() - self.current,
        {
            proof {
                use_type_invariant(&*self);
            }
            proof {
                lemma_nested_names_differ();
            }
            let ghost at = self.current as int;
            if self.check(TokenType::End)? {
                break;
            }
            if self.check(TokenType::Begin)? {
                let name = self.next_literal();
                if eq_str(name.as_slice(), "VALARM") {
                    let a = self.alarm()?;
                    return Err(ParseError::UnexpectedComponent("VALARM"));
                } else if eq_str(name.as_slice(), "STANDARD") || eq_str(name.as_slice(), "DAYLIGHT") {
                    let res = self.tz_observance();
                    let (daylight, o) = match res {
                        Ok(x) => x,
                        Err(e) => {
                            proof {
                                if sound {
                                    assert(views(self.tokens@)[at] == self.tokens@[at]@);
                                    let j = block_end(views(self.tokens@), at, Ctx::Observance)->0;
                                    assert(children(views(self.tokens@), at, Ctx::Timezone, None) == seq![at] + children(views(self.tokens@), j, Ctx::Timezone, None));
                                    assert(children(views(self.tokens@), s + 2, Ctx::Timezone, None)[kall.len() as int] == at);
                                }
                                if stray {
                                    assert(views(self.tokens@)[at] == self.tokens@[at]@);
                                    if block_end(views(self.tokens@), at, Ctx::Observance) is Some {
                                        let j = block_end(views(self.tokens@), at, Ctx::Observance)->0;
                                        lemma_block_end_after(views(self.tokens@), at, Ctx::Observance);
                                        assert(children(views(self.tokens@), at, Ctx::Timezone, None) == seq![at] + children(views(self.tokens@), j, Ctx::Timezone, None));
                                        assert(children(views(self.tokens@), s + 2, Ctx::Timezone, None)[kall.len() as int] == at);
                                    } else {
                                        assert(body_stop(views(self.tokens@), at, Ctx::Timezone) == at);
                                    }
                                }
                            }
                            return Err(e);
                        },
                    };
                    proof {
                        assert(views(self.tokens@)[at] == self.tokens@[at]@);
                        assert(nested_ok(Ctx::Timezone, views(self.tokens@)[at].literal) == Some(Ctx::Observance));
                        let j = self.current as int;
                        assert(line_positions(views(self.tokens@), at, Ctx::Timezone) == line_positions(views(self.tokens@), j, Ctx::Timezone));
                        assert(body_end(views(self.tokens@), at, Ctx::Timezone) == body_end(views(self.tokens@), j, Ctx::Timezone));
                        assert(children(views(self.tokens@), at, Ctx::Timezone, None) == seq![at] + children(views(self.tokens@), j, Ctx::Timezone, None));
                        assert(kall.push(at) + children(views(self.tokens@), j, Ctx::Timezone, None) =~= kall + (seq![at] + children(views(self.tokens@), j, Ctx::Timezone, None)));
                        kall = kall.push(at);
                    }
                    proof {
                        let j = self.current as int;
                        lemma_nested_names_differ();
                    }
                    if daylight {
                    proof {
                        let j = self.current as int;
                        assert(children(views(self.tokens@), at, Ctx::Timezone, Some("DAYLIGHT".spec_bytes())) == seq![at] + children(views(self.tokens@), j, Ctx::Timezone, Some("DAYLIGHT".spec_bytes())));
                        assert(kday.push(at) + children(views(self.tokens@), j, Ctx::Timezone, Some("DAYLIGHT".spec_bytes())) =~= kday + (seq![at] + children(views(self.tokens@), j, Ctx::Timezone, Some("DAYLIGHT".spec_bytes()))));
                        lemma_observances_read_push(views(self.tokens@), kday, b.parts().daylightc, at, o);
                        kday = kday.push(at);
                    }
                    proof {
                        let j = self.current as int;
                        assert(children(views(self.tokens@), at, Ctx::Timezone, Some("STANDARD".spec_bytes())) == children(views(self.tokens@), j, Ctx::Timezone, Some("STANDARD".spec_bytes())));
                    }
                        b.push_daylightc(o);
                    } else {
                    proof {
                        let j = self.current as int;
                        assert(children(views(self.tokens@), at, Ctx::Timezone, Some("STANDARD".spec_bytes())) == seq![at] + children(views(self.tokens@), j, Ctx::Timezone, Some("STANDARD".spec_bytes())));
                        assert(kstd.push(at) + children(views(self.tokens@), j, Ctx::Timezone, Some("STANDARD".spec_bytes())) =~= kstd + (seq![at] + children(views(self.tokens@), j, Ctx::Timezone, Some("STANDARD".spec_bytes()))));
                        lemma_observances_read_push(views(self.tokens@), kstd, b.parts().standardc, at, o);
                        kstd = kstd.push(at);
                    }
                    proof {
                        let j = self.current as int;
                        assert(children(views(self.tokens@), at, Ctx::Timezone, Some("DAYLIGHT".spec_bytes())) == children(views(self.tokens@), j, Ctx::Timezone, Some("DAYLIGHT".spec_bytes())));
                    }
                        b.push_standardc(o);
                    }
                } else if eq_str(name.as_slice(), "AVAILABLE") {
                    let a = self.available()?;
                    return Err(ParseError::UnexpectedComponent("AVAILABLE"));
                } else {
                    return Err(ParseError::UnknownComponent);
                }
            } else {
                let pr = self.property("expected a property line");
                let p = match pr {
                    Ok(p) => p,
                    Err(e) => {
                        proof {
                            assert(views(self.tokens@)[at] == self.tokens@[at]@);
                            if at + 1 < views(self.tokens@).len() {
                                assert(views(self.tokens@)[at + 1] == self.tokens@[at + 1]@);
                            }
                            assert(!line_ok(Ctx::Timezone, views(self.tokens@), at));
                            assert(body_end(views(self.tokens@), at, Ctx::Timezone) is None);
                            assert(body_stop(views(self.tokens@), at, Ctx::Timezone) == at);
                        }
                        return Err(e);
                    },
                };
                let ghost before = b.parts();
                if let Err(e) = b.ingest(p) {
                    proof {
                        assert(views(self.tokens@)[at] == self.tokens@[at]@);
                        assert(views(self.tokens@)[at + 1] == self.tokens@[at + 1]@);
                        let lp = line_positions(views(self.tokens@), s + 2, Ctx::Timezone);
                        assert(line_ok(Ctx::Timezone, views(self.tokens@), at));
                        assert(line_positions(views(self.tokens@), at, Ctx::Timezone) == seq![at] + line_positions(views(self.tokens@), at + 2, Ctx::Timezone));
                        assert(lp.take(positions.len() + 1int) =~= positions.push(at));
                        lemma_lines_at_push(views(self.tokens@), positions, props, at, p);
                        assert(props.push(p).drop_last() =~= props);
                        assert(lines_at(views(self.tokens@), lp.take(props.push(p).len() as int), props.push(p)));
                        match timezone_fold(props) {
                            Ok(q) => {
                                lemma_timezone_ingest_nested(q, p, before.standardc, before.daylightc);
                            },
                            Err(_) => {},
                        }
                        assert(timezone_fold(props.push(p)) is Err);
                    }
                    return Err(ParseError::Property(e));
                }
                proof {
                    assert(views(self.tokens@)[at] == self.tokens@[at]@);
                    assert(views(self.tokens@)[at + 1] == self.tokens@[at + 1]@);
                    assert(line_ok(Ctx::Timezone, views(self.tokens@), at));
                    assert(line_positions(views(self.tokens@), at, Ctx::Timezone) == seq![at] + line_positions(views(self.tokens@), at + 2, Ctx::Timezone));
                    assert(positions.push(at) + line_positions(views(self.tokens@), at + 2, Ctx::Timezone) =~= positions + (seq![at] + line_positions(views(self.tokens@), at + 2, Ctx::Timezone)));
                    assert(body_end(views(self.tokens@), at, Ctx::Timezone) == body_end(views(self.tokens@), at + 2, Ctx::Timezone));
                    assert(children(views(self.tokens@), at, Ctx::Timezone, Some("STANDARD".spec_bytes())) == children(views(self.tokens@), at + 2, Ctx::Timezone, Some("STANDARD".spec_bytes())));
                    assert(children(views(self.tokens@), at, Ctx::Timezone, Some("DAYLIGHT".spec_bytes())) == children(views(self.tokens@), at + 2, Ctx::Timezone, Some("DAYLIGHT".spec_bytes())));
                    assert(children(views(self.tokens@), at, Ctx::Timezone, None) == children(views(self.tokens@), at + 2, Ctx::Timezone, None));
                    lemma_lines_at_push(views(self.tokens@), positions, props, at, p);
                    assert(props.push(p).drop_last() =~= props);
                    match timezone_fold(props) {
                        Ok(q) => {
                            lemma_timezone_ingest_nested(q, p, before.standardc, before.daylightc);
                        },
                        Err(_) => {},
                    }
                    props = props.push(p);
                    positions = positions.push(at);
                }
            }
        }
        let ghost endpos = self.current as int;
        proof {
            if sound {
                assert(views(self.tokens@)[endpos] == self.tokens@[endpos]@);
                assert(body_end(views(self.tokens@), s + 2, Ctx::Timezone) == Some(endpos));
                assert(block_end(views(self.tokens@), s, Ctx::Timezone) is Some);
                assert(views(self.tokens@)[endpos + 1] == self.tokens@[endpos + 1]@);
            }
        }
        self.end_of("VTIMEZONE".as_bytes(), "expected component to end with END")?;
        proof {
            assert(views(self.tokens@)[endpos] == self.tokens@[endpos]@);
            assert(views(self.tokens@)[endpos + 1] == self.tokens@[endpos + 1]@);
            assert(line_positions(views(self.tokens@), endpos, Ctx::Timezone) =~= Seq::<int>::empty());
            assert(positions + Seq::<int>::empty() =~= positions);
            assert(body_end(views(self.tokens@), endpos, Ctx::Timezone) == Some(endpos));
            assert(body_stop(views(self.tokens@), endpos, Ctx::Timezone) == endpos);
            assert(children(views(self.tokens@), endpos, Ctx::Timezone, Some("STANDARD".spec_bytes())) =~= Seq::<int>::empty());
            assert(kstd + Seq::<int>::empty() =~= kstd);
            assert(children(views(self.tokens@), endpos, Ctx::Timezone, Some("DAYLIGHT".spec_bytes())) =~= Seq::<int>::empty());
            assert(kday + Seq::<int>::empty() =~= kday);
            assert(block_end(views(self.tokens@), s, Ctx::Timezone) == Some(endpos + 2));
            assert(lines_at(views(self.tokens@), line_positions(views(self.tokens@), s + 2, Ctx::Timezone), props));
        }
        let ghost bp = b.parts();
        match b.finish() {
            Ok(c) => {
                proof {
                    assert(lines_at(views(self.tokens@), line_positions(views(self.tokens@), s + 2, Ctx::Timezone), props));
                }
                Ok(c)
            },
            Err(e) => {
                proof {
                    if sound {
                        assert(lines_at(views(self.tokens@), line_positions(views(self.tokens@), s + 2, Ctx::Timezone), props));
                        assert(children(views(self.tokens@), s + 2, Ctx::Timezone, Some("STANDARD".spec_bytes())) == kstd);
                        assert(observances_read(views(self.tokens@), children(views(self.tokens@), s + 2, Ctx::Timezone, Some("STANDARD".spec_bytes())), bp.standardc));
                        assert(children(views(self.tokens@), s + 2, Ctx::Timezone, Some("DAYLIGHT".spec_bytes())) == kday);
                        assert(observances_read(views(self.tokens@), children(views(self.tokens@), s + 2, Ctx::Timezone, Some("DAYLIGHT".spec_bytes())), bp.daylightc));
                    }
                }
                Err(ParseError::Component(e))
            },
        }
    }

    /// Reads the body and the `END` line of a `VAVAILABILITY` whose `BEGIN` line
    /// has been read.
    fn availability_body(&mut self, _has_method: bool) -> (r: Result<Availability, ParseError>)
        requires
            2 <= old(self).current <= old(self).tokens.len(),
            old(self).tokens@[old(self).current - 2]@.token_type == TokenType::Begin,
            old(self).tokens@[old(self).current - 2]@.literal == "VAVAILABILITY".spec_bytes(),
            old(self).tokens@[old(self).current - 1]@.token_type == TokenType::Crlf,
        ensures
            final(self).tokens@ == old(self).tokens@,
            final(self).current <= final(self).tokens.len(),
            old(self).current <= final(self).current,
            r is Ok ==> old(self).current < final(self).current,
            r matches Ok(c) ==> block_end(views(old(self).tokens@), (old(self).current - 2) as int, Ctx::Availability) == Some(final(self).current as int)
                && availability_read(views(old(self).tokens@), (old(self).current - 2) as int, c),
            availability_sound(views(old(self).tokens@), (old(self).current - 2) as int) ==> r is Ok,
            availability_body_sound(views(old(self).tokens@), (old(self).current - 2) as int) && stray_begin(views(old(self).tokens@), (old(self).current - 2) as int, Ctx::Availability) ==> r == Err::<Availability, ParseError>(ParseError::UnknownComponent),
    {
        proof {
            use_type_invariant(&*self);
        }
        let ghost s: int = (old(self).current - 2) as int;
        proof {
            assert(views(self.tokens@)[s] == self.tokens@[s]@);
            assert(views(self.tokens@)[s + 1] == self.tokens@[s + 1]@);
        }
        let ghost sound = availability_sound(views(self.tokens@), s);
        proof {
            lemma_nested_names_differ();
            if sound {
                assert(block_end(views(self.tokens@), s, Ctx::Availability) is Some);
                assert(body_end(views(self.tokens@), s + 2, Ctx::Availability) is Some);
            }
        }
        let ghost stray = availability_body_sound(views(self.tokens@), s) && stray_begin(views(self.tokens@), s, Ctx::Availability);
        let mut b = AvailabilityParseBuilder::new();
        let ghost mut props: Seq<Property> = Seq::empty();
        let ghost mut positions: Seq<int> = Seq::empty();
        let ghost mut kids: Seq<int> = Seq::empty();
        let ghost mut kall: Seq<int> = Seq::empty();
        loop
            invariant
                self.tokens@ == old(self).tokens@,
                self.current <= self.tokens.len(),
                0 <= s, s + 2 <= self.current,
                s == (old(self).current - 2) as int,
                views(self.tokens@)[s].token_type == TokenType::Begin,
                views(self.tokens@)[s].literal == "VAVAILABILITY".spec_bytes(),
                views(self.tokens@)[s + 1].token_type == TokenType::Crlf,
                lines_at(views(self.tokens@), positions, props),
                within(positions, s, self.current as int),
                availability_fold(props) matches Ok(q) && b.parts() == (AvailabilityParseParts { available: b.parts().available, ..q }),
                line_positions(views(self.tokens@), s + 2, Ctx::Availability) == positions + line_positions(views(self.tokens@), self.current as int, Ctx::Availability),
                body_end(views(self.tokens@), s + 2, Ctx::Availability) == body_end(views(self.tokens@), self.current as int, Ctx::Availability),
                sound == availability_sound(views(self.tokens@), s),
                sound ==> body_end(views(self.tokens@), self.current as int, Ctx::Availability) is Some,
                props.len() == positions.len(),
                stray == (availability_body_sound(views(self.tokens@), s) && stray_begin(views(self.tokens@), s, Ctx::Availability)),
                body_stop(views(self.tokens@), s + 2, Ctx::Availability) == body_stop(views(self.tokens@), self.current as int, Ctx::Availability),
                children(views(self.tokens@), s + 2, Ctx::Availability, None) == kall + children(views(self.tokens@), self.current as int, Ctx::Availability, None),
                children(views(self.tokens@), s + 2, Ctx::Availability, None) == kids + children(views(self.tokens@), self.current as int, Ctx::Availability, None),
                availables_read(views(self.tokens@), kids, b.parts().available),
            ensures
                self.current < self.tokens.len() && self.tokens@[self.current as int]@.token_type == TokenType::End,
            decreases self.tokens.len() - self.current,
        {
            proof {
                use_type_invariant(&*self);
            }
            proof {
                lemma_nested_names_differ();
            }
            let ghost at = self.current as int;
            if self.check(TokenType::End)? {
                break;
            }
            if self.check(TokenType::Begin)? {
                let name = self.next_literal();
                if eq_str(name.as_slice(), "VALARM") {
                    let a = self.alarm()?;
                    return Err(ParseError::UnexpectedComponent("VALARM"));
                } else if eq_str(name.as_slice(), "STANDARD") || eq_str(name.as_slice(), "DAYLIGHT") {
                    let (daylight, o) = self.tz_observance()?;
                    if daylight {
                        return Err(ParseError::UnexpectedComponent("DAYLIGHT"));
                    }
                    return Err(ParseError::UnexpectedComponent("STANDARD"));
                } else if eq_str(name.as_slice(), "AVAILABLE") {
                    let res = self.available();
                    let a = match res {
                        Ok(x) => x,
                        Err(e) => {
                            proof {
                                if sound {
                                    assert(views(self.tokens@)[at] == self.tokens@[at]@);
                                    let j = block_end(views(self.tokens@), at, Ctx::Available)->0;
                                    assert(children(views(self.tokens@), at, Ctx::Availability, None) == seq![at] + children(views(self.tokens@), j, Ctx::Availability, None));
                                    assert(children(views(self.tokens@), s + 2, Ctx::Availability, None)[kall.len() as int] == at);
                                }
                                if stray {
                                    assert(views(self.tokens@)[at] == self.tokens@[at]@);
                                    if block_end(views(self.tokens@), at, Ctx::Available) is Some {
                                        let j = block_end(views(self.tokens@), at, Ctx::Available)->0;
                                        lemma_block_end_after(views(self.tokens@), at, Ctx::Available);
                                        assert(children(views(self.tokens@), at, Ctx::Availability, None) == seq![at] + children(views(self.tokens@), j, Ctx::Availability, None));
                                        assert(children(views(self.tokens@), s + 2, Ctx::Availability, None)[kall.len() as int] == at);
                                    } else {
                                        assert(body_stop(views(self.tokens@), at, Ctx::Availability) == at);
                                    }
                                }
                            }
                            return Err(e);
                        },
                    };
                    proof {
                        assert(views(self.tokens@)[at] == self.tokens@[at]@);
                        assert(nested_ok(Ctx::Availability, views(self.tokens@)[at].literal) == Some(Ctx::Available));
                        let j = self.current as int;
                        assert(line_positions(views(self.tokens@), at, Ctx::Availability) == line_positions(views(self.tokens@), j, Ctx::Availability));
                        assert(body_end(views(self.tokens@), at, Ctx::Availability) == body_end(views(self.tokens@), j, Ctx::Availability));
                        assert(children(views(self.tokens@), at, Ctx::Availability, None) == seq![at] + children(views(self.tokens@), j, Ctx::Availability, None));
                        assert(kall.push(at) + children(views(self.tokens@), j, Ctx::Availability, None) =~= kall + (seq![at] + children(views(self.tokens@), j, Ctx::Availability, None)));
                        kall = kall.push(at);
                    }
                    proof {
                        let j = self.current as int;
                        assert(children(views(self.tokens@), at, Ctx::Availability, None) == seq![at] + children(views(self.tokens@), j, Ctx::Availability, None));
                        assert(kids.push(at) + children(views(self.tokens@), j, Ctx::Availability, None) =~= kids + (seq![at] + children(views(self.tokens@), j, Ctx::Availability, None)));
                        lemma_availables_read_push(views(self.tokens@), kids, b.parts().available, at, a);
                        kids = kids.push(at);
                    }
                    b.push_available(a);
                } else {
                    return Err(ParseError::UnknownComponent);
                }
            } else {
                let pr = self.property("expected a property line");
                let p = match pr {
                    Ok(p) => p,
                    Err(e) => {
                        proof {
                            assert(views(self.tokens@)[at] == self.tokens@[at]@);
                            if at + 1 < views(self.tokens@).len() {
                                assert(views(self.tokens@)[at + 1] == self.tokens@[at + 1]@);
                            }
                            assert(!line_ok(Ctx::Availability, views(self.tokens@), at));
                            assert(body_end(views(self.tokens@), at, Ctx::Availability) is None);
                            assert(body_stop(views(self.tokens@), at, Ctx::Availability) == at);
                        }
                        return Err(e);
                    },
                };
                let ghost before = b.parts();
                if let Err(e) = b.ingest(p) {
                    proof {
                        assert(views(self.tokens@)[at] == self.tokens@[at]@);
                        assert(views(self.tokens@)[at + 1] == self.tokens@[at + 1]@);
                        let lp = line_positions(views(self.tokens@), s + 2, Ctx::Availability);
                        assert(line_ok(Ctx::Availability, views(self.tokens@), at));
                        assert(line_positions(views(self.tokens@), at, Ctx::Availability) == seq![at] + line_positions(views(self.tokens@), at + 2, Ctx::Availability));
                        assert(lp.take(positions.len() + 1int) =~= positions.push(at));
                        lemma_lines_at_push(views(self.tokens@), positions, props, at, p);
                        assert(props.push(p).drop_last() =~= props);
                        assert(lines_at(views(self.tokens@), lp.take(props.push(p).len() as int), props.push(p)));
                        match availability_fold(props) {
                            Ok(q) => {
                                lemma_availability_ingest_nested(q, p, before.available);
                            },
                            Err(_) => {},
                        }
                        assert(availability_fold(props.push(p)) is Err);
                    }
                    return Err(ParseError::Property(e));
                }
                proof {
                    assert(views(self.tokens@)[at] == self.tokens@[at]@);
                    assert(views(self.tokens@)[at + 1] == self.tokens@[at + 1]@);
                    assert(line_ok(Ctx::Availability, views(self.tokens@), at));
                    assert(line_positions(views(self.tokens@), at, Ctx::Availability) == seq![at] + line_positions(views(self.tokens@), at + 2, Ctx::Availability));
                    assert(positions.push(at) + line_positions(views(self.tokens@), at + 2, Ctx::Availability) =~= positions + (seq![at] + line_positions(views(self.tokens@), at + 2, Ctx::Availability)));
                    assert(body_end(views(self.tokens@), at, Ctx::Availability) == body_end(views(self.tokens@), at + 2, Ctx::Availability));
                    assert(children(views(self.tokens@), at, Ctx::Availability, None) == children(views(self.tokens@), at + 2, Ctx::Availability, None));
                    assert(children(views(self.tokens@), at, Ctx::Availability, None) == children(views(self.tokens@), at + 2, Ctx::Availability, None));
                    lemma_lines_at_push(views(self.tokens@), positions, props, at, p);
                    assert(props.push(p).drop_last() =~= props);
                    match availability_fold(props) {
                        Ok(q) => {
                            lemma_availability_ingest_nested(q, p, before.available);
                        },
                        Err(_) => {},
                    }
                    props = props.push(p);
                    positions = positions.push(at);
                }
            }
        }
        let ghost endpos = self.current as int;
        proof {
            if sound {
                assert(views(self.tokens@)[endpos] == self.tokens@[endpos]@);
                assert(body_end(views(self.tokens@), s + 2, Ctx::Availability) == Some(endpos));
                assert(block_end(views(self.tokens@), s, Ctx::Availability) is Some);
                assert(views(self.tokens@)[endpos + 1] == self.tokens@[endpos + 1]@);
            }
        }
        self.end_of("VAVAILABILITY".as_bytes(), "expected component to end with END")?;
        proof {
            assert(views(self.tokens@)[endpos] == self.tokens@[endpos]@);
            assert(views(self.tokens@)[endpos + 1] == self.tokens@[endpos + 1]@);
            assert(line_positions(views(self.tokens@), endpos, Ctx::Availability) =~= Seq::<int>::empty());
            assert(positions + Seq::<int>::empty() =~= positions);
            assert(body_end(views(self.tokens@), endpos, Ctx::Availability) == Some(endpos));
            assert(body_stop(views(self.tokens@), endpos, Ctx::Availability) == endpos);
            assert(children(views(self.tokens@), endpos, Ctx::Availability, None) =~= Seq::<int>::empty());
            assert(kids + Seq::<int>::empty() =~= kids);
            assert(block_end(views(self.tokens@), s, Ctx::Availability) == Some(endpos + 2));
            assert(lines_at(views(self.tokens@), line_positions(views(self.tokens@), s + 2, Ctx::Availability), props));
        }
        let ghost bp = b.parts();
        match b.finish() {
            Ok(c) => {
                proof {
                    assert(lines_at(views(self.tokens@), line_positions(views(self.tokens@), s + 2, Ctx::Availability), props));
                }
                Ok(c)
            },
            Err(e) => {
                proof {
                    if sound {
                        assert(lines_at(views(self.tokens@), line_positions(views(self.tokens@), s + 2, Ctx::Availability), props));
                        assert(children(views(self.tokens@), s + 2, Ctx::Availability, None) == kids);
                        assert(availables_read(views(self.tokens@), children(views(self.tokens@), s + 2, Ctx::Availability, None), bp.available));
                    }
                }
                Err(ParseError::Component(e))
            },
        }
    }
    /// Reads the body and the `END` line of a component this crate doesn't
    /// model, whose `BEGIN` line has been read: every content line is kept
    /// as text, and nested components the same way.
    fn unknown_body(&mut self, name: Vec<u8>) -> (r: Result<UnknownComponent, ParseError>)
        requires
            2 <= old(self).current <= old(self).tokens.len(),
            old(self).tokens@[old(self).current - 2]@.token_type == TokenType::Begin,
            old(self).tokens@[old(self).current - 2]@.literal == name@,
            old(self).tokens@[old(self).current - 1]@.token_type == TokenType::Crlf,
        ensures
            final(self).tokens@ == old(self).tokens@,
            final(self).current <= final(self).tokens.len(),
            old(self).current <= final(self).current,
            r is Ok ==> old(self).current < final(self).current,
            r matches Ok(u) ==> block_end(views(old(self).tokens@), old(self).current - 2, Ctx::Other) == Some(final(self).current as int)
                && unknown_read(views(old(self).tokens@), old(self).current - 2, u),
            block_end(views(old(self).tokens@), old(self).current - 2, Ctx::Other) is Some ==> r is Ok,
            body_end(views(old(self).tokens@), old(self).current as int, Ctx::Other) matches Some(k) && views(old(self).tokens@)[k].literal
                != name@ ==> r == Err::<UnknownComponent, ParseError>(ParseError::MismatchedEnd),
        decreases old(self).tokens.len() - old(self).current,
    {
        proof {
            use_type_invariant(&*self);
        }
        let ghost s: int = old(self).current - 2;
        proof {
            assert(views(self.tokens@)[s] == self.tokens@[s]@);
            assert(views(self.tokens@)[s + 1] == self.tokens@[s + 1]@);
        }
        let ghost sound = body_end(views(self.tokens@), s + 2, Ctx::Other) is Some;
        let mut lines: Vec<String> = Vec::new();
        let mut components: Vec<UnknownComponent> = Vec::new();
        let ghost mut positions: Seq<int> = Seq::empty();
        let ghost mut kids: Seq<int> = Seq::empty();
        loop
            invariant
                self.tokens@ == old(self).tokens@,
                self.current <= self.tokens.len(),
                0 <= s, s + 2 <= self.current,
                s == old(self).current - 2,
                s + 2 == old(self).current,
                views(self.tokens@)[s].token_type == TokenType::Begin,
                views(self.tokens@)[s].literal == name@,
                views(self.tokens@)[s + 1].token_type == TokenType::Crlf,
                texts_at(views(self.tokens@), positions, lines@.map_values(|l: String| l@)),
                line_positions(views(self.tokens@), s + 2, Ctx::Other) == positions + line_positions(views(self.tokens@), self.current as int, Ctx::Other),
                body_end(views(self.tokens@), s + 2, Ctx::Other) == body_end(views(self.tokens@), self.current as int, Ctx::Other),
                children(views(self.tokens@), s + 2, Ctx::Other, None) == kids + children(views(self.tokens@), self.current as int, Ctx::Other, None),
                kids.len() == components@.len(),
                forall|i: int| 0 <= i < kids.len() ==> s < #[trigger] kids[i] <= self.tokens.len() && unknown_read(views(self.tokens@), kids[i], components@[i]),
                sound == (body_end(views(self.tokens@), s + 2, Ctx::Other) is Some),
                sound ==> body_end(views(self.tokens@), self.current as int, Ctx::Other) is Some,
            ensures
                self.current < self.tokens.len() && self.tokens@[self.current as int]@.token_type == TokenType::End,
            decreases self.tokens.len() - self.current,
        {
            proof {
                use_type_invariant(&*self);
            }
            let ghost at = self.current as int;
            if self.check(TokenType::End)? {
                break;
            }
            if self.check(TokenType::Begin)? {
                proof {
                    assert(views(self.tokens@)[at] == self.tokens@[at]@);
                    if sound {
                        assert(block_end(views(self.tokens@), at, Ctx::Other) is Some);
                        assert(views(self.tokens@)[at + 1] == self.tokens@[at + 1]@);
                    }
                }
                let k = self.consume(TokenType::Begin, "expected component to start with BEGIN")?;
                let nested = self.literal_at(k);
                self.consume(TokenType::Crlf, "expected crlf after BEGIN")?;
                let c = self.unknown_body(nested)?;
                proof {
                    assert(views(self.tokens@)[at] == self.tokens@[at]@);
                    let j = self.current as int;
                    assert(nested_ok(Ctx::Other, views(self.tokens@)[at].literal) == Some(Ctx::Other));
                    assert(line_positions(views(self.tokens@), at, Ctx::Other) == line_positions(views(self.tokens@), j, Ctx::Other));
                    assert(body_end(views(self.tokens@), at, Ctx::Other) == body_end(views(self.tokens@), j, Ctx::Other));
                    assert(children(views(self.tokens@), at, Ctx::Other, None) == seq![at] + children(views(self.tokens@), j, Ctx::Other, None));
                    assert(kids.push(at) + children(views(self.tokens@), j, Ctx::Other, None) =~= kids + (seq![at] + children(views(self.tokens@), j, Ctx::Other, None)));
                }
                components.push(c);
                proof {
                    let ks = kids.push(at);
                    assert forall|i: int| 0 <= i < ks.len() implies s < #[trigger] ks[i] <= self.tokens.len() && unknown_read(views(self.tokens@), ks[i], components@[i]) by {
                        if i < kids.len() {
                            assert(ks[i] == kids[i]);
                        }
                    }
                    kids = ks;
                }
            } else {
                proof {
                    assert(views(self.tokens@)[at] == self.tokens@[at]@);
                    if sound {
                        assert(line_ok(Ctx::Other, views(self.tokens@), at));
                        assert(views(self.tokens@)[at + 1] == self.tokens@[at + 1]@);
                    }
                }
                let k = self.consume(TokenType::Property, "expected a property line")?;
                let mut line = copy_range(self.tokens[k].lexeme(), 0, self.tokens[k].lexeme().len());
                let lit = self.literal_at(k);
                line.extend_from_slice(lit.as_slice());
                let ghost bytes = line@;
                proof {
                    assert(bytes == views(self.tokens@)[at].lexeme + views(self.tokens@)[at].literal);
                }
                let text = match string_from_utf8(line) {
                    Some(t) => t,
                    None => {
                        return Err(ParseError::Utf);
                    },
                };
                let ghost before = lines@;
                let ghost tv = text@;
                proof {
                    assert(vstd::utf8::encode_utf8(tv) == bytes);
                }
                lines.push(text);
                self.consume(TokenType::Crlf, "expected crlf after property")?;
                proof {
                    assert(views(self.tokens@)[at] == self.tokens@[at]@);
                    assert(views(self.tokens@)[at + 1] == self.tokens@[at + 1]@);
                    assert(bytes == views(self.tokens@)[at].lexeme + views(self.tokens@)[at].literal);
                    assert(line_ok(Ctx::Other, views(self.tokens@), at));
                    assert(line_positions(views(self.tokens@), at, Ctx::Other) == seq![at] + line_positions(views(self.tokens@), at + 2, Ctx::Other));
                    assert(positions.push(at) + line_positions(views(self.tokens@), at + 2, Ctx::Other) =~= positions + (seq![at] + line_positions(views(self.tokens@), at + 2, Ctx::Other)));
                    assert(body_end(views(self.tokens@), at, Ctx::Other) == body_end(views(self.tokens@), at + 2, Ctx::Other));
                    assert(children(views(self.tokens@), at, Ctx::Other, None) == children(views(self.tokens@), at + 2, Ctx::Other, None));
                    let ps = positions.push(at);
                    let ls = lines@.map_values(|l: String| l@);
                    let bs = before.map_values(|l: String| l@);
                    assert(ls.len() == ps.len());
                    assert forall|i: int| 0 <= i < ls.len() implies 0 <= ps[i] < views(self.tokens@).len() && vstd::utf8::encode_utf8(#[trigger] ls[i])
                        == views(self.tokens@)[ps[i]].lexeme + views(self.tokens@)[ps[i]].literal by {
                        if i < positions.len() {
                            assert(lines@[i] == before[i]);
                            assert(ls[i] == bs[i]);
                            assert(ps[i] == positions[i]);
                        } else {
                            assert(i == positions.len());
                            assert(ls[i] == tv);
                            assert(ps[i] == at);
                        }
                    }
                    lemma_texts_at_intro(views(self.tokens@), ps, ls);
                    positions = ps;
                }
            }
        }
        let ghost endpos = self.current as int;
        proof {
            if sound {
                assert(views(self.tokens@)[endpos] == self.tokens@[endpos]@);
                assert(body_end(views(self.tokens@), s + 2, Ctx::Other) == Some(endpos));
            }
            if block_end(views(self.tokens@), s, Ctx::Other) is Some {
                assert(body_end(views(self.tokens@), s + 2, Ctx::Other) == Some(endpos));
                assert(views(self.tokens@)[endpos + 1] == self.tokens@[endpos + 1]@);
            }
        }
        self.end_of(name.as_slice(), "expected component to end with END")?;
        let ghost nm = name@;
        let text = match string_from_utf8(name) {
            Some(t) => t,
            None => {
                return Err(ParseError::Utf);
            },
        };
        proof {
            assert(views(self.tokens@)[endpos] == self.tokens@[endpos]@);
            assert(views(self.tokens@)[endpos + 1] == self.tokens@[endpos + 1]@);
            assert(line_positions(views(self.tokens@), endpos, Ctx::Other) =~= Seq::<int>::empty());
            assert(positions + Seq::<int>::empty() =~= positions);
            assert(children(views(self.tokens@), endpos, Ctx::Other, None) =~= Seq::<int>::empty());
            assert(kids + Seq::<int>::empty() =~= kids);
            assert(body_end(views(self.tokens@), endpos, Ctx::Other) == Some(endpos));
            assert(block_end(views(self.tokens@), s, Ctx::Other) == Some(endpos + 2));
        }
        let ghost lv = lines@;
        let u = UnknownComponent::new(text, lines, components);
        proof {
            let lt = lv.map_values(|l: String| l@);
            assert forall|i: int| 0 <= i < u.spec_lines().len() implies 0 <= positions[i] < views(self.tokens@).len() && vstd::utf8::encode_utf8(
                #[trigger] u.spec_lines()[i],
            ) == views(self.tokens@)[positions[i]].lexeme + views(self.tokens@)[positions[i]].literal by {
                assert(u.spec_lines()[i] == lv[i]@);
                assert(lt[i] == lv[i]@);
            }
            assert(texts_at(views(self.tokens@), positions, u.spec_lines()));
            assert(children(views(self.tokens@), s + 2, Ctx::Other, None) == kids);
            assert(line_positions(views(self.tokens@), s + 2, Ctx::Other) == positions);
            assert(unknown_read(views(self.tokens@), s, u));
        }
        Ok(u)
    }

    /// Reads one `BEGIN:<name> ... END:<name>` component of a calendar.
    fn component(&mut self, has_method: bool) -> (r: Result<Component, ParseError>)
        ensures
            final(self).tokens@ == old(self).tokens@,
            final(self).current <= final(self).tokens.len(),
            old(self).current <= final(self).current,
            r is Ok ==> old(self).current < final(self).current,
            r matches Ok(c) ==> old(self).current < old(self).tokens.len() && block_end(
                views(old(self).tokens@),
                old(self).current as int,
                kind_named(views(old(self).tokens@)[old(self).current as int].literal),
            ) == Some(final(self).current as int) && component_read(views(old(self).tokens@), old(self).current as int, c),
            component_sound(views(old(self).tokens@), old(self).current as int, has_method) ==> r is Ok,
            component_mismatched(views(old(self).tokens@), old(self).current as int) ==> r == Err::<Component, ParseError>(
                ParseError::MismatchedEnd,
            ),
            component_stray(views(old(self).tokens@), old(self).current as int) ==> r == Err::<Component, ParseError>(
                ParseError::UnknownComponent,
            ),
    {
        proof {
            use_type_invariant(&*self);
        }
        let ghost s: int = old(self).current as int;
        proof {
            if s + 1 < self.tokens.len() {
                assert(views(self.tokens@)[s] == self.tokens@[s]@);
                assert(views(self.tokens@)[s + 1] == self.tokens@[s + 1]@);
            }
            if component_sound(views(self.tokens@), s, has_method) {
                assert(block_end(views(self.tokens@), s, kind_named(views(self.tokens@)[s].literal)) is Some);
                assert(views(self.tokens@)[s] == self.tokens@[s]@);
                assert(views(self.tokens@)[s + 1] == self.tokens@[s + 1]@);
            }
        }
        let i = self.consume(TokenType::Begin, "expected component to start with BEGIN")?;
        let name = self.literal_at(i);
        self.consume(TokenType::Crlf, "expected crlf after BEGIN")?;
        proof {
            assert(views(self.tokens@)[s] == self.tokens@[s]@);
        }
        if eq_str(name.as_slice(), "VEVENT") {
            Ok(Component::Event(self.event_body(has_method)?))
        } else if eq_str(name.as_slice(), "VTODO") {
            Ok(Component::Todo(self.todo_body(has_method)?))
        } else if eq_str(name.as_slice(), "VJOURNAL") {
            Ok(Component::Journal(self.journal_body(has_method)?))
        } else if eq_str(name.as_slice(), "VFREEBUSY") {
            Ok(Component::FreeBusy(self.free_busy_body(has_method)?))
        } else if eq_str(name.as_slice(), "VTIMEZONE") {
            Ok(Component::Timezone(self.timezone_body(has_method)?))
        } else if eq_str(name.as_slice(), "VAVAILABILITY") {
            Ok(Component::Availability(self.availability_body(has_method)?))
        } else {
            Ok(Component::Unknown(self.unknown_body(name)?))
        }
    }

    /// Reads one `BEGIN:VCALENDAR ... END:VCALENDAR` calendar object: its
    /// properties, then its components, then builds it, checking what a
    /// [`crate::calendar::CalendarBuilder`] checks. The line break after
    /// the final `END:VCALENDAR` may be missing at the end of the input.
    pub fn calendar(&mut self) -> (r: Result<Calendar, ParseError>)
        ensures
            final(self).spec_tokens() == old(self).spec_tokens(),
            old(self).position() <= final(self).position(),
            final(self).position() <= final(self).spec_tokens().len(),
            r is Ok ==> old(self).position() < final(self).position(),
            r is Ok ==> calendar_end(old(self).spec_tokens(), old(self).position() as int) == Some(final(self).position() as int),
            r matches Ok(c) ==> calendar_read(old(self).spec_tokens(), old(self).position() as int, c),
            r matches Ok(c) ==> calendar_check(c.parts()) is Ok,
            old(self).position() < old(self).spec_tokens().len() && old(self).spec_tokens()[old(self).position() as int].token_type
                == TokenType::Begin && old(self).spec_tokens()[old(self).position() as int].literal != "VCALENDAR".spec_bytes()
                ==> r == Err::<Calendar, ParseError>(ParseError::UnknownComponent),
            calendar_sound(old(self).spec_tokens(), old(self).position() as int) ==> r is Ok,
            calendar_body_sound(old(self).spec_tokens(), old(self).position() as int) && (components_end(
                old(self).spec_tokens(),
                calendar_props_end(old(self).spec_tokens(), old(self).position() as int + 2)->0,
            ) matches Some(m) && old(self).spec_tokens()[m].token_type == TokenType::End && old(self).spec_tokens()[m].literal
                != "VCALENDAR".spec_bytes()) ==> r == Err::<Calendar, ParseError>(ParseError::MismatchedEnd),
            calendar_head_sound(old(self).spec_tokens(), old(self).position() as int) && component_stray(
                old(self).spec_tokens(),
                components_stop(old(self).spec_tokens(), calendar_props_end(old(self).spec_tokens(), old(self).position() as int + 2)->0),
            ) ==> r == Err::<Calendar, ParseError>(ParseError::UnknownComponent),
            calendar_head_sound(old(self).spec_tokens(), old(self).position() as int) && component_mismatched(
                old(self).spec_tokens(),
                components_stop(old(self).spec_tokens(), calendar_props_end(old(self).spec_tokens(), old(self).position() as int + 2)->0),
            ) ==> r == Err::<Calendar, ParseError>(ParseError::MismatchedEnd),
    {
        proof {
            use_type_invariant(&*self);
        }
        let ghost pos: int = old(self).current as int;
        proof {
            if pos < self.tokens.len() {
                assert(views(self.tokens@)[pos] == self.tokens@[pos]@);
            }
        }
        let ghost sound = calendar_head_sound(views(self.tokens@), pos);
        proof {
            if sound {
                assert(views(self.tokens@)[pos + 1] == self.tokens@[pos + 1]@);
            }
        }
        let i = self.consume(TokenType::Begin, "expected calendar to start with BEGIN")?;
        if !eq_str(self.tokens[i].literal(), "VCALENDAR") {
            return Err(ParseError::UnknownComponent);
        }
        self.consume(TokenType::Crlf, "expected crlf after BEGIN")?;
        proof {
            assert(views(self.tokens@)[pos + 1] == self.tokens@[pos + 1]@);
        }
        let mut cal = CalendarParseBuilder::new();
        let ghost mut props: Seq<Property> = Seq::empty();
        let ghost from = pos + 2;
        loop
            invariant
                self.tokens@ == old(self).tokens@,
                self.current <= self.tokens.len(),
                pos == old(self).current,
                from == pos + 2,
                0 <= pos, pos + 1 < self.tokens.len(),
                views(self.tokens@)[pos].token_type == TokenType::Begin,
                views(self.tokens@)[pos].literal == "VCALENDAR".spec_bytes(),
                views(self.tokens@)[pos + 1].token_type == TokenType::Crlf,
                cal.parts().components == Seq::<Component>::empty(),
                self.current == from + 2 * props.len(),
                lines_read(views(self.tokens@), from, props),
                calendar_fold(props) == Ok::<CalendarParseParts, PropertyError>(cal.parts()),
                calendar_props_end(views(self.tokens@), from) == calendar_props_end(views(self.tokens@), self.current as int),
                sound == calendar_head_sound(views(self.tokens@), pos),
                sound ==> calendar_props_end(views(self.tokens@), self.current as int) is Some,
            ensures
                self.current < self.tokens.len() && self.tokens@[self.current as int]@.token_type == TokenType::Begin,
            decreases self.tokens.len() - self.current,
        {
            proof {
                use_type_invariant(&*self);
            }
            let ghost at = self.current as int;
            if self.check(TokenType::Begin)? {
                break;
            }
            let pr = self.property("expected a calendar property");
            let p = match pr {
                Ok(p) => p,
                Err(e) => {
                    proof {
                        assert(views(self.tokens@)[at] == self.tokens@[at]@);
                        if at + 1 < views(self.tokens@).len() {
                            assert(views(self.tokens@)[at + 1] == self.tokens@[at + 1]@);
                        }
                        assert(calendar_props_end(views(self.tokens@), at) is None);
                    }
                    return Err(e);
                },
            };
            let ghost before = cal.parts();
            if let Err(e) = cal.ingest(p) {
                proof {
                    let ps2 = props.push(p);
                    assert(ps2.drop_last() =~= props);
                    assert(views(self.tokens@)[at] == self.tokens@[at]@);
                    assert(views(self.tokens@)[at + 1] == self.tokens@[at + 1]@);
                    lemma_lines_read_push(views(self.tokens@), from, props, p);
                    assert(calendar_fold(ps2) is Err);
                    if sound {
                        assert(calendar_props_end(views(self.tokens@), at) == calendar_props_end(views(self.tokens@), at + 2));
                        lemma_props_end_after(views(self.tokens@), at + 2);
                        assert(lines_read(views(self.tokens@), pos + 2, ps2));
                    }
                }
                return Err(ParseError::Property(e));
            }
            proof {
                let ps2 = props.push(p);
                assert(ps2.drop_last() =~= props);
                assert(views(self.tokens@)[at] == self.tokens@[at]@);
                assert(views(self.tokens@)[at + 1] == self.tokens@[at + 1]@);
                assert(calendar_props_end(views(self.tokens@), at) == calendar_props_end(views(self.tokens@), at + 2));
                lemma_lines_read_push(views(self.tokens@), from, props, p);
                props = ps2;
            }
        }
        let ghost k: int = self.current as int;
        proof {
            assert(views(self.tokens@)[k] == self.tokens@[k]@);
            assert(calendar_props_end(views(self.tokens@), from) == Some(k));
        }
        let ghost q0 = cal.parts();
        let has_method = cal.has_method();
        proof {
            if sound {
                assert((k - pos - 2) / 2 == props.len());
                assert(lines_read(views(self.tokens@), pos + 2, props));
            }
        }
        let ghost mut starts: Seq<int> = Seq::empty();
        loop
            invariant
                self.tokens@ == old(self).tokens@,
                self.current <= self.tokens.len(),
                k <= self.current,
                0 <= k < self.tokens.len(),
                pos == old(self).current,
                pos + 2 <= k,
                pos + 1 < self.tokens.len(),
                views(self.tokens@)[pos].token_type == TokenType::Begin,
                views(self.tokens@)[pos].literal == "VCALENDAR".spec_bytes(),
                views(self.tokens@)[pos + 1].token_type == TokenType::Crlf,
                calendar_props_end(views(self.tokens@), pos + 2) == Some(k),
                k == pos + 2 + 2 * props.len(),
                lines_read(views(self.tokens@), pos + 2, props),
                calendar_fold(props) matches Ok(q) && q0 == (CalendarParseParts { components: q0.components, ..q }),
                has_method == q0.method is Some,
                sound == calendar_head_sound(views(self.tokens@), pos),
                calendar_body_sound(views(self.tokens@), pos) ==> components_end(views(self.tokens@), self.current as int) is Some,
                components_stop(views(self.tokens@), k) == components_stop(views(self.tokens@), self.current as int),
                sound ==> forall|i: int| 0 <= i < component_starts(views(self.tokens@), k).len() ==> component_sound(
                    views(self.tokens@), #[trigger] component_starts(views(self.tokens@), k)[i], has_method),
                components_end(views(self.tokens@), k) == components_end(views(self.tokens@), self.current as int),
                component_starts(views(self.tokens@), k) == starts + component_starts(views(self.tokens@), self.current as int),
                components_read(views(self.tokens@), starts, cal.parts().components),
                cal.parts() == (CalendarParseParts { components: cal.parts().components, ..q0 }),
            ensures
                self.current < self.tokens.len() && self.tokens@[self.current as int]@.token_type != TokenType::Begin,
            decreases self.tokens.len() - self.current,
        {
            proof {
                use_type_invariant(&*self);
            }
            let ghost at = self.current as int;
            if !self.check(TokenType::Begin)? {
                break;
            }
            let ghost before = cal.parts().components;
            let cr = self.component(has_method);
            let c = match cr {
                Ok(c) => c,
                Err(e) => {
                    proof {
                        assert(views(self.tokens@)[at] == self.tokens@[at]@);
                        if sound {
                            if block_end(views(self.tokens@), at, kind_named(views(self.tokens@)[at].literal)) is Some {
                                let j = block_end(views(self.tokens@), at, kind_named(views(self.tokens@)[at].literal))->0;
                                lemma_block_end_after(views(self.tokens@), at, kind_named(views(self.tokens@)[at].literal));
                                assert(component_starts(views(self.tokens@), at) == seq![at] + component_starts(views(self.tokens@), j));
                                assert(component_starts(views(self.tokens@), k)[starts.len() as int] == at);
                            } else {
                                assert(components_stop(views(self.tokens@), at) == at);
                            }
                        }
                    }
                    return Err(e);
                },
            };
            proof {
                assert(views(self.tokens@)[at] == self.tokens@[at]@);
                let j = self.current as int;
                assert(components_end(views(self.tokens@), at) == components_end(views(self.tokens@), j));
                assert(component_starts(views(self.tokens@), at) == seq![at] + component_starts(views(self.tokens@), j));
                assert(starts.push(at) + component_starts(views(self.tokens@), j) =~= starts + (seq![at] + component_starts(views(self.tokens@), j)));
                lemma_components_read_push(views(self.tokens@), starts, before, at, c);
                starts = starts.push(at);
            }
            cal.push_components(c);
        }
        let ghost exit = self.current as int;
        proof {
            assert(views(self.tokens@)[exit] == self.tokens@[exit]@);
            assert(components_end(views(self.tokens@), exit) == Some(exit));
            assert(component_starts(views(self.tokens@), exit) =~= Seq::<int>::empty());
            assert(starts + Seq::<int>::empty() =~= starts);
        }
        proof {
            assert(components_stop(views(self.tokens@), exit) == exit);
            if calendar_body_sound(views(self.tokens@), pos) {
                assert(components_end(views(self.tokens@), k) == Some(exit));
            }
            if calendar_sound(views(self.tokens@), pos) {
                assert(calendar_end(views(self.tokens@), pos) is Some);
                assert(views(self.tokens@)[exit + 1] == self.tokens@[exit + 1]@);
            }
        }
        let j = self.consume(TokenType::End, "expected calendar to end with END")?;
        if !eq_str(self.tokens[j].literal(), "VCALENDAR") {
            return Err(ParseError::MismatchedEnd);
        }
        if !self.is_at_end()? {
            self.consume(TokenType::Crlf, "expected crlf after END")?;
        }
        let ghost comps = cal.parts().components;
        proof {
            assert(cal.parts() == (CalendarParseParts { components: comps, ..q0 }));
            assert(views(self.tokens@)[exit + 1] == self.tokens@[exit + 1]@);
            assert(calendar_end(views(self.tokens@), pos) == Some(self.current as int));
        }
        let ghost bp = cal.parts();
        match cal.finish() {
            Ok(c) => {
                proof {
                    assert(component_starts(views(self.tokens@), k) == starts);
                    assert(lines_read(views(self.tokens@), pos + 2, props));
                    assert(calendar_read(views(self.tokens@), pos, c));
                }
                Ok(c)
            },
            Err(e) => {
                proof {
                    if calendar_sound(views(self.tokens@), pos) {
                        assert(component_starts(views(self.tokens@), k) == starts);
                        assert(lines_read(views(self.tokens@), pos + 2, props));
                        assert(components_read(views(self.tokens@), component_starts(views(self.tokens@), k), bp.components));
                    }
                }
                Err(ParseError::Component(e))
            },
        }
    }
}

} // verus!
