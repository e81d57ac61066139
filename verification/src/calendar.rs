//! Calendar objects (RFC 5545 §3.4, §3.6).

use vstd::prelude::*;
use vstd::string::StringSliceAdditionalSpecFns;
use vstd::utf8::valid_utf8;
use std::marker::PhantomData;
use crate::components::{
    blocks, delimiter, first_err, lemma_blocks_valid, lemma_delimiter_valid, lemma_line_valid, lemma_lines_valid,
    lemma_opt_line_valid, line, lines, opt_line, start_checks, check_start, write_blocks, write_delimiter,
    write_line, write_lines, write_opt_line,
    ComponentError,
};
use crate::properties::calendar::{CalendarScale, Method, ProductIdentifier, Version};
use crate::properties::component::change::{LastModified};
use crate::properties::component::descriptive::{Categories, Color, Description, Image, RefreshInterval, Source};
use crate::properties::component::location::{Name};
use crate::properties::component::relationship::{Uid, UniformResourceLocator};
use crate::properties::{Iana, Xprop};
use crate::properties::component::datetime::value_type_check;
use crate::values::datetime::DateOrDatetime;
use crate::values::Ical;
use crate::components::event::Event;
use crate::components::todo::Todo;
use crate::components::journal::Journal;
use crate::components::free_busy::FreeBusy;
use crate::components::timezone::Timezone;
use crate::components::availability::Availability;
use crate::components::unknown::UnknownComponent;
use crate::itip::rules::{itip_validation, validate};
use crate::ast::lexer::{lex, without_bom, Lexer, LexerError, TokenType, TokenView};
use crate::ast::unfold::unfolded;
use crate::ast::grammar::{calendar_end, calendar_props_end, component_starts, components_end, components_stop};
use crate::ast::parser::{calendar_fold, components_read, lines_read, calendar_body_sound, calendar_head_sound, component_mismatched, component_stray, calendar_read, calendar_sound, lemma_stream_read_push, stream_read, stream_sound, Parser};
use crate::properties::ParseError;

use crate::ast::property::Property;
use crate::properties::PropertyError;
verus! {

/// Why bytes couldn't be parsed as a calendar: they couldn't be tokenized,
/// or the tokens don't form a valid calendar object.
#[derive(Debug)]
pub enum CalendarParseError {
    /// The bytes couldn't be tokenized.
    Lexer(LexerError),
    /// The tokens didn't form a valid calendar object.
    Parse(ParseError),
}

/// A component directly inside a calendar object.
#[derive(Debug)]
pub enum Component {
    /// A scheduled event (`VEVENT`).
    Event(Event),
    /// A to-do (`VTODO`).
    Todo(Todo),
    /// A journal entry (`VJOURNAL`).
    Journal(Journal),
    /// Free or busy time (`VFREEBUSY`).
    FreeBusy(FreeBusy),
    /// A time zone definition (`VTIMEZONE`).
    Timezone(Timezone),
    /// Availability (`VAVAILABILITY`, RFC 7953).
    Availability(Availability),
    /// A component of a kind this crate doesn't model, kept whole.
    Unknown(UnknownComponent),
}

impl Ical for Component {
    open spec fn ical(&self) -> Seq<u8> {
        match self {
            Component::Event(c) => c.ical(),
            Component::Todo(c) => c.ical(),
            Component::Journal(c) => c.ical(),
            Component::FreeBusy(c) => c.ical(),
            Component::Timezone(c) => c.ical(),
            Component::Availability(c) => c.ical(),
            Component::Unknown(c) => c.ical(),
        }
    }

    proof fn lemma_ical_valid(&self) {
        match self {
            Component::Event(c) => c.lemma_ical_valid(),
            Component::Todo(c) => c.lemma_ical_valid(),
            Component::Journal(c) => c.lemma_ical_valid(),
            Component::FreeBusy(c) => c.lemma_ical_valid(),
            Component::Timezone(c) => c.lemma_ical_valid(),
            Component::Availability(c) => c.lemma_ical_valid(),
            Component::Unknown(c) => c.lemma_ical_valid(),
        }
    }

    fn write_to(&self, out: &mut Vec<u8>) {
        match self {
            Component::Event(c) => c.write_to(out),
            Component::Todo(c) => c.write_to(out),
            Component::Journal(c) => c.write_to(out),
            Component::FreeBusy(c) => c.write_to(out),
            Component::Timezone(c) => c.write_to(out),
            Component::Availability(c) => c.write_to(out),
            Component::Unknown(c) => c.write_to(out),
        }
    }
}

impl From<Event> for Component {
    fn from(v: Event) -> (r: Component) {
        Component::Event(v)
    }
}

impl vstd::std_specs::convert::FromSpecImpl<Event> for Component {
    open spec fn obeys_from_spec() -> bool {
        true
    }

    open spec fn from_spec(v: Event) -> Component {
        Component::Event(v)
    }
}

impl From<Todo> for Component {
    fn from(v: Todo) -> (r: Component) {
        Component::Todo(v)
    }
}

impl vstd::std_specs::convert::FromSpecImpl<Todo> for Component {
    open spec fn obeys_from_spec() -> bool {
        true
    }

    open spec fn from_spec(v: Todo) -> Component {
        Component::Todo(v)
    }
}

impl From<Journal> for Component {
    fn from(v: Journal) -> (r: Component) {
        Component::Journal(v)
    }
}

impl vstd::std_specs::convert::FromSpecImpl<Journal> for Component {
    open spec fn obeys_from_spec() -> bool {
        true
    }

    open spec fn from_spec(v: Journal) -> Component {
        Component::Journal(v)
    }
}

impl From<FreeBusy> for Component {
    fn from(v: FreeBusy) -> (r: Component) {
        Component::FreeBusy(v)
    }
}

impl vstd::std_specs::convert::FromSpecImpl<FreeBusy> for Component {
    open spec fn obeys_from_spec() -> bool {
        true
    }

    open spec fn from_spec(v: FreeBusy) -> Component {
        Component::FreeBusy(v)
    }
}

impl From<Timezone> for Component {
    fn from(v: Timezone) -> (r: Component) {
        Component::Timezone(v)
    }
}

impl vstd::std_specs::convert::FromSpecImpl<Timezone> for Component {
    open spec fn obeys_from_spec() -> bool {
        true
    }

    open spec fn from_spec(v: Timezone) -> Component {
        Component::Timezone(v)
    }
}

impl From<Availability> for Component {
    fn from(v: Availability) -> (r: Component) {
        Component::Availability(v)
    }
}

impl vstd::std_specs::convert::FromSpecImpl<Availability> for Component {
    open spec fn obeys_from_spec() -> bool {
        true
    }

    open spec fn from_spec(v: Availability) -> Component {
        Component::Availability(v)
    }
}

impl From<UnknownComponent> for Component {
    fn from(v: UnknownComponent) -> (r: Component) {
        Component::Unknown(v)
    }
}

impl vstd::std_specs::convert::FromSpecImpl<UnknownComponent> for Component {
    open spec fn obeys_from_spec() -> bool {
        true
    }

    open spec fn from_spec(v: UnknownComponent) -> Component {
        Component::Unknown(v)
    }
}

/// The properties of a [`Calendar`] or of a [`CalendarBuilder`].
pub struct CalendarParts {
    /// `prodid`.
    pub prodid: ProductIdentifier,
    /// `version`.
    pub version: Version,
    /// `calscale`.
    pub calscale: Option<CalendarScale>,
    /// `method`.
    pub method: Option<Method>,
    /// `uid`.
    pub uid: Option<Uid>,
    /// `last_mod`.
    pub last_mod: Option<LastModified>,
    /// `url`.
    pub url: Option<UniformResourceLocator>,
    /// `refresh_interval`.
    pub refresh_interval: Option<RefreshInterval>,
    /// `source`.
    pub source: Option<Source>,
    /// `color`.
    pub color: Option<Color>,
    /// `name`.
    pub name: Seq<Name>,
    /// `description`.
    pub description: Seq<Description>,
    /// `categories`.
    pub categories: Seq<Categories>,
    /// `image`.
    pub image: Seq<Image>,
    /// `xprop`.
    pub xprop: Seq<Xprop>,
    /// `iana`.
    pub iana: Seq<Iana>,
    /// `components`.
    pub components: Seq<Component>,
}

/// An iCalendar object (RFC 5545 §3.4): the calendar properties, then one
/// or more components.
#[derive(Debug)]
pub struct Calendar {
    prodid: ProductIdentifier,
    version: Version,
    calscale: Option<CalendarScale>,
    method: Option<Method>,
    uid: Option<Uid>,
    last_mod: Option<LastModified>,
    url: Option<UniformResourceLocator>,
    refresh_interval: Option<RefreshInterval>,
    source: Option<Source>,
    color: Option<Color>,
    name: Vec<Name>,
    description: Vec<Description>,
    categories: Vec<Categories>,
    image: Vec<Image>,
    xprop: Vec<Xprop>,
    iana: Vec<Iana>,
    components: Vec<Component>,
}

/// Lines 0 of a written [`Calendar`].
pub open spec fn calendar_lines_0(p: CalendarParts) -> Seq<u8> {
    line(p.prodid)
        + line(p.version)
        + opt_line(p.calscale)
        + opt_line(p.method)
        + opt_line(p.uid)
        + opt_line(p.last_mod)
        + opt_line(p.url)
        + opt_line(p.refresh_interval)
}

/// Lines 1 of a written [`Calendar`].
pub open spec fn calendar_lines_1(p: CalendarParts) -> Seq<u8> {
    opt_line(p.source)
        + opt_line(p.color)
        + lines(p.name)
        + lines(p.description)
        + lines(p.categories)
        + lines(p.image)
        + lines(p.xprop)
        + lines(p.iana)
}

/// Lines 2 of a written [`Calendar`].
pub open spec fn calendar_lines_2(p: CalendarParts) -> Seq<u8> {
    blocks(p.components)
}

/// The lines of a written [`Calendar`], between its delimiters.
#[verifier::opaque]
pub open spec fn calendar_body(p: CalendarParts) -> Seq<u8> {
    calendar_lines_0(p) + calendar_lines_1(p) + calendar_lines_2(p)
}

proof fn lemma_calendar_lines_0_valid(p: CalendarParts)
    ensures
        valid_utf8(calendar_lines_0(p)),
{
    lemma_line_valid(p.prodid);
    lemma_line_valid(p.version);
    lemma_opt_line_valid(p.calscale);
    lemma_opt_line_valid(p.method);
    lemma_opt_line_valid(p.uid);
    lemma_opt_line_valid(p.last_mod);
    lemma_opt_line_valid(p.url);
    lemma_opt_line_valid(p.refresh_interval);
    vstd::utf8::valid_utf8_concat(line(p.prodid), line(p.version));
    vstd::utf8::valid_utf8_concat(line(p.prodid) + line(p.version), opt_line(p.calscale));
    vstd::utf8::valid_utf8_concat(line(p.prodid) + line(p.version) + opt_line(p.calscale), opt_line(p.method));
    vstd::utf8::valid_utf8_concat(line(p.prodid) + line(p.version) + opt_line(p.calscale) + opt_line(p.method), opt_line(p.uid));
    vstd::utf8::valid_utf8_concat(line(p.prodid) + line(p.version) + opt_line(p.calscale) + opt_line(p.method) + opt_line(p.uid), opt_line(p.last_mod));
    vstd::utf8::valid_utf8_concat(line(p.prodid) + line(p.version) + opt_line(p.calscale) + opt_line(p.method) + opt_line(p.uid) + opt_line(p.last_mod), opt_line(p.url));
    vstd::utf8::valid_utf8_concat(line(p.prodid) + line(p.version) + opt_line(p.calscale) + opt_line(p.method) + opt_line(p.uid) + opt_line(p.last_mod) + opt_line(p.url), opt_line(p.refresh_interval));
}

proof fn lemma_calendar_lines_1_valid(p: CalendarParts)
    ensures
        valid_utf8(calendar_lines_1(p)),
{
    lemma_opt_line_valid(p.source);
    lemma_opt_line_valid(p.color);
    lemma_lines_valid(p.name);
    lemma_lines_valid(p.description);
    lemma_lines_valid(p.categories);
    lemma_lines_valid(p.image);
    lemma_lines_valid(p.xprop);
    lemma_lines_valid(p.iana);
    vstd::utf8::valid_utf8_concat(opt_line(p.source), opt_line(p.color));
    vstd::utf8::valid_utf8_concat(opt_line(p.source) + opt_line(p.color), lines(p.name));
    vstd::utf8::valid_utf8_concat(opt_line(p.source) + opt_line(p.color) + lines(p.name), lines(p.description));
    vstd::utf8::valid_utf8_concat(opt_line(p.source) + opt_line(p.color) + lines(p.name) + lines(p.description), lines(p.categories));
    vstd::utf8::valid_utf8_concat(opt_line(p.source) + opt_line(p.color) + lines(p.name) + lines(p.description) + lines(p.categories), lines(p.image));
    vstd::utf8::valid_utf8_concat(opt_line(p.source) + opt_line(p.color) + lines(p.name) + lines(p.description) + lines(p.categories) + lines(p.image), lines(p.xprop));
    vstd::utf8::valid_utf8_concat(opt_line(p.source) + opt_line(p.color) + lines(p.name) + lines(p.description) + lines(p.categories) + lines(p.image) + lines(p.xprop), lines(p.iana));
}

proof fn lemma_calendar_lines_2_valid(p: CalendarParts)
    ensures
        valid_utf8(calendar_lines_2(p)),
{
    lemma_blocks_valid(p.components);
}

proof fn lemma_calendar_body_valid(p: CalendarParts)
    ensures
        valid_utf8(calendar_body(p)),
{
    reveal(calendar_body);
    lemma_calendar_lines_0_valid(p);
    lemma_calendar_lines_1_valid(p);
    lemma_calendar_lines_2_valid(p);
    vstd::utf8::valid_utf8_concat(calendar_lines_0(p), calendar_lines_1(p));
    vstd::utf8::valid_utf8_concat(calendar_lines_0(p) + calendar_lines_1(p), calendar_lines_2(p));
}

impl Calendar {
    /// The properties held.
    pub closed spec fn parts(&self) -> CalendarParts {
        CalendarParts {
            prodid: self.prodid,
            version: self.version,
            calscale: self.calscale,
            method: self.method,
            uid: self.uid,
            last_mod: self.last_mod,
            url: self.url,
            refresh_interval: self.refresh_interval,
            source: self.source,
            color: self.color,
            name: self.name@,
            description: self.description@,
            categories: self.categories@,
            image: self.image@,
            xprop: self.xprop@,
            iana: self.iana@,
            components: self.components@,
        }
    }

    /// `components`, in order.
    pub fn components(&self) -> (r: &[Component])
        ensures
            r@ == self.parts().components,
    {
        self.components.as_slice()
    }

    /// Parses one `BEGIN:VCALENDAR ... END:VCALENDAR` object from raw bytes:
    /// the bytes are unfolded and tokenized, the tokens read as a calendar,
    /// and anything after the object is an error (see
    /// [`Calendar::parse_stream`] for several objects in a row).
    pub fn parse(src: &[u8]) -> (r: Result<Calendar, CalendarParseError>)
        ensures
            lex(unfolded(without_bom(src@)), false) matches Err(e) ==> r == Err::<Calendar, CalendarParseError>(CalendarParseError::Lexer(e)),
            r matches Ok(c) ==> calendar_check(c.parts()) is Ok,
            r matches Ok(c) ==> (lex(unfolded(without_bom(src@)), false) matches Ok(ts) && calendar_end(ts, 0) matches Some(e) && 0 <= e
                < ts.len() && ts[e].token_type == TokenType::Eof && calendar_read(ts, 0, c)),
            lex(unfolded(without_bom(src@)), false) matches Ok(ts) ==> (calendar_end(ts, 0) matches Some(e) && 0 <= e < ts.len()
                && ts[e].token_type != TokenType::Eof ==> r is Err),
            lex(unfolded(without_bom(src@)), false) matches Ok(ts) ==> (calendar_end(ts, 0) matches Some(e) && 0 <= e < ts.len()
                && ts[e].token_type == TokenType::Eof && calendar_sound(ts, 0) ==> r is Ok),
            lex(unfolded(without_bom(src@)), false) matches Ok(ts) ==> (calendar_head_sound(ts, 0) && component_stray(
                ts,
                components_stop(ts, calendar_props_end(ts, 2)->0),
            ) ==> r == Err::<Calendar, CalendarParseError>(CalendarParseError::Parse(ParseError::UnknownComponent))),
            lex(unfolded(without_bom(src@)), false) matches Ok(ts) ==> (calendar_head_sound(ts, 0) && component_mismatched(
                ts,
                components_stop(ts, calendar_props_end(ts, 2)->0),
            ) ==> r == Err::<Calendar, CalendarParseError>(CalendarParseError::Parse(ParseError::MismatchedEnd))),
            lex(unfolded(without_bom(src@)), false) matches Ok(ts) ==> (calendar_body_sound(ts, 0) && (components_end(
                ts,
                calendar_props_end(ts, 2)->0,
            ) matches Some(m) && ts[m].token_type == TokenType::End && ts[m].literal != "VCALENDAR".spec_bytes())
                ==> r == Err::<Calendar, CalendarParseError>(CalendarParseError::Parse(ParseError::MismatchedEnd))),
            lex(unfolded(without_bom(src@)), false) matches Ok(ts) ==> (ts.len() > 0 && ts[0].token_type == TokenType::Begin
                && ts[0].literal != "VCALENDAR".spec_bytes() ==> r == Err::<Calendar, CalendarParseError>(
                CalendarParseError::Parse(ParseError::UnknownComponent),
            )),
    {
        let tokens = match Lexer::new(src).scan() {
            Ok(t) => t,
            Err(e) => {
                return Err(CalendarParseError::Lexer(e));
            },
        };
        let mut parser = Parser::new(tokens);
        let c = match parser.calendar() {
            Ok(c) => c,
            Err(e) => {
                return Err(CalendarParseError::Parse(e));
            },
        };
        match parser.is_at_end() {
            Ok(true) => Ok(c),
            Ok(false) => Err(CalendarParseError::Parse(parser.trailing())),
            Err(e) => Err(CalendarParseError::Parse(e)),
        }
    }

    /// Parses a stream of one or more `BEGIN:VCALENDAR ... END:VCALENDAR`
    /// objects back to back (RFC 5545 §3.4), giving one calendar per
    /// object, in order.
    pub fn parse_stream(src: &[u8]) -> (r: Result<Vec<Calendar>, CalendarParseError>)
        ensures
            lex(unfolded(without_bom(src@)), false) matches Err(e) ==> r == Err::<Vec<Calendar>, CalendarParseError>(CalendarParseError::Lexer(e)),
            r matches Ok(cs) ==> forall|i: int| 0 <= i < cs.len() ==> calendar_check(#[trigger] cs@[i].parts()) is Ok,
            r matches Ok(cs) ==> (lex(unfolded(without_bom(src@)), false) matches Ok(ts) && exists|e: int|
                #[trigger] stream_read(ts, 0, e, cs@) && 0 <= e < ts.len() && ts[e].token_type == TokenType::Eof),
            lex(unfolded(without_bom(src@)), false) matches Ok(ts) ==> (stream_sound(ts, 0) ==> r is Ok),
    {
        let tokens = match Lexer::new(src).scan() {
            Ok(t) => t,
            Err(e) => {
                return Err(CalendarParseError::Lexer(e));
            },
        };
        let mut parser = Parser::new(tokens);
        let mut calendars: Vec<Calendar> = Vec::new();
        loop
            invariant
                forall|i: int| 0 <= i < calendars.len() ==> calendar_check(#[trigger] calendars@[i].parts()) is Ok,
                parser.position() <= parser.spec_tokens().len(),
                lex(unfolded(without_bom(src@)), false) == Ok::<Seq<TokenView>, LexerError>(parser.spec_tokens()),
                stream_read(parser.spec_tokens(), 0, parser.position() as int, calendars@),
                stream_sound(parser.spec_tokens(), 0) ==> stream_sound(parser.spec_tokens(), parser.position() as int),
            ensures
                stream_read(parser.spec_tokens(), 0, parser.position() as int, calendars@),
                parser.position() < parser.spec_tokens().len(),
                parser.spec_tokens()[parser.position() as int].token_type == TokenType::Eof,
            decreases parser.spec_tokens().len() - parser.position(),
        {
            match parser.is_at_end() {
                Ok(true) => {
                    proof {
                        assert(stream_read(parser.spec_tokens(), 0, parser.position() as int, calendars@));
                    }
                    break;
                },
                Ok(false) => {},
                Err(e) => {
                    return Err(CalendarParseError::Parse(e));
                },
            }
            let ghost at = parser.position() as int;
            match parser.calendar() {
                Ok(c) => {
                    proof {
                        lemma_stream_read_push(parser.spec_tokens(), 0, at, calendars@, parser.position() as int, c);
                    }
                    calendars.push(c);
                },
                Err(e) => {
                    return Err(CalendarParseError::Parse(e));
                },
            }
        }
        Ok(calendars)
    }

    fn write_lines_0(&self, out: &mut Vec<u8>)
        ensures
            final(out)@ == old(out)@ + calendar_lines_0(self.parts()),
    {
        write_line(&self.prodid, out);
        write_line(&self.version, out);
        write_opt_line(&self.calscale, out);
        write_opt_line(&self.method, out);
        write_opt_line(&self.uid, out);
        write_opt_line(&self.last_mod, out);
        write_opt_line(&self.url, out);
        write_opt_line(&self.refresh_interval, out);
        assert(out@ =~= old(out)@ + calendar_lines_0(self.parts()));
    }

    fn write_lines_1(&self, out: &mut Vec<u8>)
        ensures
            final(out)@ == old(out)@ + calendar_lines_1(self.parts()),
    {
        write_opt_line(&self.source, out);
        write_opt_line(&self.color, out);
        write_lines(self.name.as_slice(), out);
        write_lines(self.description.as_slice(), out);
        write_lines(self.categories.as_slice(), out);
        write_lines(self.image.as_slice(), out);
        write_lines(self.xprop.as_slice(), out);
        write_lines(self.iana.as_slice(), out);
        assert(out@ =~= old(out)@ + calendar_lines_1(self.parts()));
    }

    fn write_lines_2(&self, out: &mut Vec<u8>)
        ensures
            final(out)@ == old(out)@ + calendar_lines_2(self.parts()),
    {
        write_blocks(self.components.as_slice(), out);
        assert(out@ =~= old(out)@ + calendar_lines_2(self.parts()));
    }

    fn write_body(&self, out: &mut Vec<u8>)
        ensures
            final(out)@ == old(out)@ + calendar_body(self.parts()),
    {
        reveal(calendar_body);
        self.write_lines_0(out);
        self.write_lines_1(out);
        self.write_lines_2(out);
        assert(out@ =~= old(out)@ + calendar_body(self.parts()));
    }
}

impl Ical for Calendar {
    /// `BEGIN:VCALENDAR`, a line for each property, each nested component, and
    /// `END:VCALENDAR`.
    open spec fn ical(&self) -> Seq<u8> {
        delimiter("BEGIN:", "VCALENDAR") + calendar_body(self.parts()) + delimiter("END:", "VCALENDAR")
    }

    proof fn lemma_ical_valid(&self) {
        lemma_delimiter_valid("BEGIN:", "VCALENDAR");
        lemma_delimiter_valid("END:", "VCALENDAR");
        lemma_calendar_body_valid(self.parts());
        vstd::utf8::valid_utf8_concat(delimiter("BEGIN:", "VCALENDAR"), calendar_body(self.parts()));
        vstd::utf8::valid_utf8_concat(
            delimiter("BEGIN:", "VCALENDAR") + calendar_body(self.parts()),
            delimiter("END:", "VCALENDAR"),
        );
    }

    fn write_to(&self, out: &mut Vec<u8>) {
        write_delimiter("BEGIN:", "VCALENDAR", out);
        self.write_body(out);
        write_delimiter("END:", "VCALENDAR", out);
        assert(out@ =~= old(out)@ + self.ical());
    }
}

/// Whether a component is an event with no `DTSTART`.
pub open spec fn event_without_start(c: Component) -> bool {
    c matches Component::Event(e) && e.parts().dtstart is None
}

/// What building a [`Calendar`] checks, in order: that it has a component;
/// when there is no `METHOD`, that every event has a `DTSTART`; and, when
/// `METHOD` names an iTIP method, RFC 5546's restrictions for it.
pub open spec fn calendar_check(p: CalendarParts) -> Result<(), ComponentError> {
    if p.components.len() == 0 {
        Err(ComponentError::RequiresAtLeastOne("VCALENDAR", "calendar component"))
    } else if p.method is None && exists|i: int|
        0 <= i < p.components.len() && event_without_start(#[trigger] p.components[i]) {
        Err(ComponentError::MissingField("DTSTART"))
    } else {
        match p.method {
            Some(m) => match itip_validation(m, p.components) {
                Err(e) => Err(ComponentError::Itip(e)),
                Ok(_) => Ok(()),
            },
            None => Ok(()),
        }
    }
}

/// Builds a [`Calendar`].
#[derive(Debug)]
pub struct CalendarBuilder {
    prodid: ProductIdentifier,
    version: Version,
    calscale: Option<CalendarScale>,
    method: Option<Method>,
    uid: Option<Uid>,
    last_mod: Option<LastModified>,
    url: Option<UniformResourceLocator>,
    refresh_interval: Option<RefreshInterval>,
    source: Option<Source>,
    color: Option<Color>,
    name: Vec<Name>,
    description: Vec<Description>,
    categories: Vec<Categories>,
    image: Vec<Image>,
    xprop: Vec<Xprop>,
    iana: Vec<Iana>,
    components: Vec<Component>,
}

impl CalendarBuilder {
    /// The properties held.
    pub closed spec fn parts(&self) -> CalendarParts {
        CalendarParts {
            prodid: self.prodid,
            version: self.version,
            calscale: self.calscale,
            method: self.method,
            uid: self.uid,
            last_mod: self.last_mod,
            url: self.url,
            refresh_interval: self.refresh_interval,
            source: self.source,
            color: self.color,
            name: self.name@,
            description: self.description@,
            categories: self.categories@,
            image: self.image@,
            xprop: self.xprop@,
            iana: self.iana@,
            components: self.components@,
        }
    }

    /// Sets `calscale`.
    pub fn calscale(self, v: CalendarScale) -> (r: CalendarBuilder)
        ensures
            r.parts() == (CalendarParts { calscale: Some(v), ..self.parts() }),
    {
        let mut b = self;
        b.calscale = Some(v);
        b
    }

    /// Sets `method`.
    pub fn method(self, v: Method) -> (r: CalendarBuilder)
        ensures
            r.parts() == (CalendarParts { method: Some(v), ..self.parts() }),
    {
        let mut b = self;
        b.method = Some(v);
        b
    }

    /// Sets `uid`.
    pub fn uid(self, v: Uid) -> (r: CalendarBuilder)
        ensures
            r.parts() == (CalendarParts { uid: Some(v), ..self.parts() }),
    {
        let mut b = self;
        b.uid = Some(v);
        b
    }

    /// Sets `last_mod`.
    pub fn last_mod(self, v: LastModified) -> (r: CalendarBuilder)
        ensures
            r.parts() == (CalendarParts { last_mod: Some(v), ..self.parts() }),
    {
        let mut b = self;
        b.last_mod = Some(v);
        b
    }

    /// Sets `url`.
    pub fn url(self, v: UniformResourceLocator) -> (r: CalendarBuilder)
        ensures
            r.parts() == (CalendarParts { url: Some(v), ..self.parts() }),
    {
        let mut b = self;
        b.url = Some(v);
        b
    }

    /// Sets `refresh_interval`.
    pub fn refresh_interval(self, v: RefreshInterval) -> (r: CalendarBuilder)
        ensures
            r.parts() == (CalendarParts { refresh_interval: Some(v), ..self.parts() }),
    {
        let mut b = self;
        b.refresh_interval = Some(v);
        b
    }

    /// Sets `source`.
    pub fn source(self, v: Source) -> (r: CalendarBuilder)
        ensures
            r.parts() == (CalendarParts { source: Some(v), ..self.parts() }),
    {
        let mut b = self;
        b.source = Some(v);
        b
    }

    /// Sets `color`.
    pub fn color(self, v: Color) -> (r: CalendarBuilder)
        ensures
            r.parts() == (CalendarParts { color: Some(v), ..self.parts() }),
    {
        let mut b = self;
        b.color = Some(v);
        b
    }

    /// Adds a `name`.
    pub fn name(self, v: Name) -> (r: CalendarBuilder)
        ensures
            r.parts() == (CalendarParts { name: self.parts().name.push(v), ..self.parts() }),
    {
        let mut b = self;
        b.name.push(v);
        b
    }

    /// Adds a `description`.
    pub fn description(self, v: Description) -> (r: CalendarBuilder)
        ensures
            r.parts() == (CalendarParts { description: self.parts().description.push(v), ..self.parts() }),
    {
        let mut b = self;
        b.description.push(v);
        b
    }

    /// Adds a `categories`.
    pub fn categories(self, v: Categories) -> (r: CalendarBuilder)
        ensures
            r.parts() == (CalendarParts { categories: self.parts().categories.push(v), ..self.parts() }),
    {
        let mut b = self;
        b.categories.push(v);
        b
    }

    /// Adds a `image`.
    pub fn image(self, v: Image) -> (r: CalendarBuilder)
        ensures
            r.parts() == (CalendarParts { image: self.parts().image.push(v), ..self.parts() }),
    {
        let mut b = self;
        b.image.push(v);
        b
    }

    /// Adds a `xprop`.
    pub fn xprop(self, v: Xprop) -> (r: CalendarBuilder)
        ensures
            r.parts() == (CalendarParts { xprop: self.parts().xprop.push(v), ..self.parts() }),
    {
        let mut b = self;
        b.xprop.push(v);
        b
    }

    /// Adds a `iana`.
    pub fn iana(self, v: Iana) -> (r: CalendarBuilder)
        ensures
            r.parts() == (CalendarParts { iana: self.parts().iana.push(v), ..self.parts() }),
    {
        let mut b = self;
        b.iana.push(v);
        b
    }

    /// Adds a `components`.
    pub fn component(self, v: Component) -> (r: CalendarBuilder)
        ensures
            r.parts() == (CalendarParts { components: self.parts().components.push(v), ..self.parts() }),
    {
        let mut b = self;
        b.components.push(v);
        b
    }

    /// Checks the rules that hold between the properties, and builds the
    /// component.
    pub fn build(self) -> (r: Result<Calendar, ComponentError>)
        ensures
            r is Ok <==> calendar_check(self.parts()) is Ok,
            r matches Err(e) ==> calendar_check(self.parts()) == Err::<(), ComponentError>(e),
            r matches Ok(c) ==> c.parts() == self.parts(),
    {
        if self.components.len() == 0 {
            return Err(ComponentError::RequiresAtLeastOne("VCALENDAR", "calendar component"));
        }
        if self.method.is_none() {
            let mut i: usize = 0;
            while i < self.components.len()
                invariant
                    i <= self.components.len(),
                    self.method is None,
                    self.components.len() > 0,
                    forall|j: int| 0 <= j < i ==> !event_without_start(#[trigger] self.components@[j]),
                decreases self.components.len() - i,
            {
                if let Component::Event(e) = &self.components[i] {
                    if e.dtstart().is_none() {
                        assert(event_without_start(self.components@[i as int]));
                        return Err(ComponentError::MissingField("DTSTART"));
                    }
                }
                i += 1;
            }
        }
        if let Some(m) = &self.method {
            if let Err(e) = validate(m, self.components.as_slice()) {
                return Err(ComponentError::Itip(e));
            }
        }
        Ok(
            Calendar {
                prodid: self.prodid,
                version: self.version,
                calscale: self.calscale,
                method: self.method,
                uid: self.uid,
                last_mod: self.last_mod,
                url: self.url,
                refresh_interval: self.refresh_interval,
                source: self.source,
                color: self.color,
                name: self.name,
                description: self.description,
                categories: self.categories,
                image: self.image,
                xprop: self.xprop,
                iana: self.iana,
                components: self.components,
            }
        )
    }
}

impl CalendarBuilder {
    /// A builder with the two properties a calendar object requires.
    pub fn new(prodid: ProductIdentifier, version: Version) -> (r: CalendarBuilder)
        ensures
            r.parts() == (CalendarParts { prodid, version, calscale: None, method: None, uid: None, last_mod: None, url: None, refresh_interval: None, source: None, color: None, name: Seq::empty(), description: Seq::empty(), categories: Seq::empty(), image: Seq::empty(), xprop: Seq::empty(), iana: Seq::empty(), components: Seq::empty() }),
    {
        CalendarBuilder {
            prodid,
            version,
            calscale: None,
            method: None,
            uid: None,
            last_mod: None,
            url: None,
            refresh_interval: None,
            source: None,
            color: None,
            name: Vec::new(),
            description: Vec::new(),
            categories: Vec::new(),
            image: Vec::new(),
            xprop: Vec::new(),
            iana: Vec::new(),
            components: Vec::new(),
        }
    }
}


/// The properties of a [`CalendarParseBuilder`], as values.
pub ghost struct CalendarParseParts {
    /// `prodid`.
    pub prodid: Option<ProductIdentifier>,
    /// `version`.
    pub version: Option<Version>,
    /// `calscale`.
    pub calscale: Option<CalendarScale>,
    /// `method`.
    pub method: Option<Method>,
    /// `uid`.
    pub uid: Option<Uid>,
    /// `last_mod`.
    pub last_mod: Option<LastModified>,
    /// `url`.
    pub url: Option<UniformResourceLocator>,
    /// `refresh_interval`.
    pub refresh_interval: Option<RefreshInterval>,
    /// `source`.
    pub source: Option<Source>,
    /// `color`.
    pub color: Option<Color>,
    /// `name`.
    pub name: Seq<Name>,
    /// `description`.
    pub description: Seq<Description>,
    /// `categories`.
    pub categories: Seq<Categories>,
    /// `image`.
    pub image: Seq<Image>,
    /// `xprop`.
    pub xprop: Seq<Xprop>,
    /// `iana`.
    pub iana: Seq<Iana>,
    /// `components`.
    pub components: Seq<Component>,
}

/// Collects the content lines of a component being read, in the order
/// they come, and builds it at its end.
#[derive(Debug)]
pub struct CalendarParseBuilder {
    prodid: Option<ProductIdentifier>,
    version: Option<Version>,
    calscale: Option<CalendarScale>,
    method: Option<Method>,
    uid: Option<Uid>,
    last_mod: Option<LastModified>,
    url: Option<UniformResourceLocator>,
    refresh_interval: Option<RefreshInterval>,
    source: Option<Source>,
    color: Option<Color>,
    name: Vec<Name>,
    description: Vec<Description>,
    categories: Vec<Categories>,
    image: Vec<Image>,
    xprop: Vec<Xprop>,
    iana: Vec<Iana>,
    components: Vec<Component>,
}

/// What reading the property `p` does to the properties `q` collected so
/// far: `PRODID`, `VERSION`, `CALSCALE` and `METHOD` take the last value
/// given, any other property held once may not come twice, one held many
/// times is added, and one a calendar doesn't hold is refused.
#[verifier::opaque]
pub open spec fn calendar_ingest(q: CalendarParseParts, p: Property) -> Result<CalendarParseParts, PropertyError> {
    match p {
        Property::ProductIdentifier(x) => Ok(CalendarParseParts { prodid: Some(x), ..q }),
        Property::Version(x) => Ok(CalendarParseParts { version: Some(x), ..q }),
        Property::CalendarScale(x) => Ok(CalendarParseParts { calscale: Some(x), ..q }),
        Property::Method(x) => Ok(CalendarParseParts { method: Some(x), ..q }),
        Property::Uid(x) => if q.uid is Some {
            Err(PropertyError::DuplicateProperty("UID"))
        } else {
            Ok(CalendarParseParts { uid: Some(x), ..q })
        },
        Property::LastModified(x) => if q.last_mod is Some {
            Err(PropertyError::DuplicateProperty("LAST-MODIFIED"))
        } else {
            Ok(CalendarParseParts { last_mod: Some(x), ..q })
        },
        Property::UniformResourceLocator(x) => if q.url is Some {
            Err(PropertyError::DuplicateProperty("URL"))
        } else {
            Ok(CalendarParseParts { url: Some(x), ..q })
        },
        Property::RefreshInterval(x) => if q.refresh_interval is Some {
            Err(PropertyError::DuplicateProperty("REFRESH-INTERVAL"))
        } else {
            Ok(CalendarParseParts { refresh_interval: Some(x), ..q })
        },
        Property::Source(x) => if q.source is Some {
            Err(PropertyError::DuplicateProperty("SOURCE"))
        } else {
            Ok(CalendarParseParts { source: Some(x), ..q })
        },
        Property::Color(x) => if q.color is Some {
            Err(PropertyError::DuplicateProperty("COLOR"))
        } else {
            Ok(CalendarParseParts { color: Some(x), ..q })
        },
        Property::Name(x) => Ok(CalendarParseParts { name: q.name.push(x), ..q }),
        Property::Description(x) => Ok(CalendarParseParts { description: q.description.push(x), ..q }),
        Property::Categories(x) => Ok(CalendarParseParts { categories: q.categories.push(x), ..q }),
        Property::Image(x) => Ok(CalendarParseParts { image: q.image.push(x), ..q }),
        Property::Xprop(x) => Ok(CalendarParseParts { xprop: q.xprop.push(x), ..q }),
        Property::Iana(x) => Ok(CalendarParseParts { iana: q.iana.push(x), ..q }),
        _ => Err(PropertyError::UnexpectedProperty),
    }
}

/// The properties `q` holds, once those it requires are there.
pub open spec fn calendar_parts_of(q: CalendarParseParts) -> CalendarParts {
    CalendarParts {
        prodid: q.prodid->0,
        version: q.version->0,
        calscale: q.calscale,
        method: q.method,
        uid: q.uid,
        last_mod: q.last_mod,
        url: q.url,
        refresh_interval: q.refresh_interval,
        source: q.source,
        color: q.color,
        name: q.name,
        description: q.description,
        categories: q.categories,
        image: q.image,
        xprop: q.xprop,
        iana: q.iana,
        components: q.components,
    }
}

/// The first property `q` requires and lacks, if any.
pub open spec fn calendar_missing(q: CalendarParseParts) -> Option<&'static str> {
    if q.prodid is None {
        Some("PRODID")
    } else if q.version is None {
        Some("VERSION")
    } else {
        None
    }
}

impl CalendarParseBuilder {
    /// The properties collected.
    pub closed spec fn parts(&self) -> CalendarParseParts {
        CalendarParseParts {
            prodid: self.prodid,
            version: self.version,
            calscale: self.calscale,
            method: self.method,
            uid: self.uid,
            last_mod: self.last_mod,
            url: self.url,
            refresh_interval: self.refresh_interval,
            source: self.source,
            color: self.color,
            name: self.name@,
            description: self.description@,
            categories: self.categories@,
            image: self.image@,
            xprop: self.xprop@,
            iana: self.iana@,
            components: self.components@,
        }
    }

    /// Nothing collected yet.
    pub open spec fn empty_parts() -> CalendarParseParts {
        CalendarParseParts {
            prodid: None,
            version: None,
            calscale: None,
            method: None,
            uid: None,
            last_mod: None,
            url: None,
            refresh_interval: None,
            source: None,
            color: None,
            name: Seq::empty(),
            description: Seq::empty(),
            categories: Seq::empty(),
            image: Seq::empty(),
            xprop: Seq::empty(),
            iana: Seq::empty(),
            components: Seq::empty(),
        }
    }

    /// A component with nothing collected yet.
    pub fn new() -> (r: CalendarParseBuilder)
        ensures
            r.parts() == CalendarParseBuilder::empty_parts(),
    {
        CalendarParseBuilder {
            prodid: None,
            version: None,
            calscale: None,
            method: None,
            uid: None,
            last_mod: None,
            url: None,
            refresh_interval: None,
            source: None,
            color: None,
            name: Vec::new(),
            description: Vec::new(),
            categories: Vec::new(),
            image: Vec::new(),
            xprop: Vec::new(),
            iana: Vec::new(),
            components: Vec::new(),
        }
    }

    /// Reads one property into the component.
    pub fn ingest(&mut self, p: Property) -> (r: Result<(), PropertyError>)
        ensures
            match calendar_ingest(old(self).parts(), p) {
                Ok(q) => r is Ok && final(self).parts() == q,
                Err(e) => r == Err::<(), PropertyError>(e) && final(self).parts() == old(self).parts(),
            },
            final(self).parts().components == old(self).parts().components,
    {
        reveal(calendar_ingest);
        match p {
            Property::ProductIdentifier(x) => {
                self.prodid = Some(x);
                Ok(())
            },
            Property::Version(x) => {
                self.version = Some(x);
                Ok(())
            },
            Property::CalendarScale(x) => {
                self.calscale = Some(x);
                Ok(())
            },
            Property::Method(x) => {
                self.method = Some(x);
                Ok(())
            },
            Property::Uid(x) => {
                if self.uid.is_some() {
                    return Err(PropertyError::DuplicateProperty("UID"));
                }
                self.uid = Some(x);
                Ok(())
            },
            Property::LastModified(x) => {
                if self.last_mod.is_some() {
                    return Err(PropertyError::DuplicateProperty("LAST-MODIFIED"));
                }
                self.last_mod = Some(x);
                Ok(())
            },
            Property::UniformResourceLocator(x) => {
                if self.url.is_some() {
                    return Err(PropertyError::DuplicateProperty("URL"));
                }
                self.url = Some(x);
                Ok(())
            },
            Property::RefreshInterval(x) => {
                if self.refresh_interval.is_some() {
                    return Err(PropertyError::DuplicateProperty("REFRESH-INTERVAL"));
                }
                self.refresh_interval = Some(x);
                Ok(())
            },
            Property::Source(x) => {
                if self.source.is_some() {
                    return Err(PropertyError::DuplicateProperty("SOURCE"));
                }
                self.source = Some(x);
                Ok(())
            },
            Property::Color(x) => {
                if self.color.is_some() {
                    return Err(PropertyError::DuplicateProperty("COLOR"));
                }
                self.color = Some(x);
                Ok(())
            },
            Property::Name(x) => {
                self.name.push(x);
                Ok(())
            },
            Property::Description(x) => {
                self.description.push(x);
                Ok(())
            },
            Property::Categories(x) => {
                self.categories.push(x);
                Ok(())
            },
            Property::Image(x) => {
                self.image.push(x);
                Ok(())
            },
            Property::Xprop(x) => {
                self.xprop.push(x);
                Ok(())
            },
            Property::Iana(x) => {
                self.iana.push(x);
                Ok(())
            },
            _ => Err(PropertyError::UnexpectedProperty),
        }
    }

    /// Whether a `METHOD` has been read.
    pub fn has_method(&self) -> (r: bool)
        ensures
            r == self.parts().method is Some,
    {
        self.method.is_some()
    }

    /// Adds a nested component read in full.
    pub fn push_components(&mut self, v: Component)
        ensures
            final(self).parts() == (CalendarParseParts { components: old(self).parts().components.push(v), ..old(self).parts() }),
    {
        self.components.push(v);
    }

    /// Builds the component: the properties it requires must be there,
    /// and then it is checked as its builder checks it.
    pub fn finish(self) -> (r: Result<Calendar, ComponentError>)
        ensures
            calendar_missing(self.parts()) matches Some(n) ==> r == Err::<Calendar, ComponentError>(ComponentError::MissingField(n)),
            calendar_missing(self.parts()) is None ==> (r is Ok <==> calendar_check(calendar_parts_of(self.parts())) is Ok),
            calendar_missing(self.parts()) is None ==> (r matches Err(e) ==> calendar_check(calendar_parts_of(self.parts())) == Err::<(), ComponentError>(e)),
            r matches Ok(c) ==> c.parts() == calendar_parts_of(self.parts()),
    {
        let CalendarParseBuilder { prodid, version, calscale, method, uid, last_mod, url, refresh_interval, source, color, name, description, categories, image, xprop, iana, components } = self;
        let prodid = match prodid {
            Some(x) => x,
            None => {
                return Err(ComponentError::MissingField("PRODID"));
            },
        };
        let version = match version {
            Some(x) => x,
            None => {
                return Err(ComponentError::MissingField("VERSION"));
            },
        };
        let b = CalendarBuilder {
            prodid,
            version,
            calscale,
            method,
            uid,
            last_mod,
            url,
            refresh_interval,
            source,
            color,
            name,
            description,
            categories,
            image,
            xprop,
            iana,
            components,
        };
        b.build()
    }
}

/// The last `METHOD` among the properties `props`, if there is one.
pub open spec fn last_method(props: Seq<Property>) -> Option<Method>
    decreases props.len(),
{
    if props.len() == 0 {
        None
    } else if props.last() is Method {
        Some(props.last()->Method_0)
    } else {
        last_method(props.drop_last())
    }
}

/// The last `PRODID` among the properties `props`, if there is one.
pub open spec fn last_prodid(props: Seq<Property>) -> Option<ProductIdentifier>
    decreases props.len(),
{
    if props.len() == 0 {
        None
    } else if props.last() is ProductIdentifier {
        Some(props.last()->ProductIdentifier_0)
    } else {
        last_prodid(props.drop_last())
    }
}

/// The last `VERSION` among the properties `props`, if there is one.
pub open spec fn last_version(props: Seq<Property>) -> Option<Version>
    decreases props.len(),
{
    if props.len() == 0 {
        None
    } else if props.last() is Version {
        Some(props.last()->Version_0)
    } else {
        last_version(props.drop_last())
    }
}

/// The last `CALSCALE` among the properties `props`, if there is one.
pub open spec fn last_calscale(props: Seq<Property>) -> Option<CalendarScale>
    decreases props.len(),
{
    if props.len() == 0 {
        None
    } else if props.last() is CalendarScale {
        Some(props.last()->CalendarScale_0)
    } else {
        last_calscale(props.drop_last())
    }
}

/// Reading a calendar's own properties one after another keeps as its
/// method the last `METHOD` among them, and no method where there is none;
/// the same holds of `PRODID`, `VERSION` and `CALSCALE`.
pub proof fn lemma_calendar_method_is_last(props: Seq<Property>)
    ensures
        calendar_fold(props) matches Ok(q) ==> q.method == last_method(props),
        calendar_fold(props) matches Ok(q) ==> q.prodid == last_prodid(props),
        calendar_fold(props) matches Ok(q) ==> q.version == last_version(props),
        calendar_fold(props) matches Ok(q) ==> q.calscale == last_calscale(props),
    decreases props.len(),
{
    reveal(calendar_ingest);
    if props.len() > 0 {
        lemma_calendar_method_is_last(props.drop_last());
    }
}

/// A parsed calendar's method is the last `METHOD` line among its own
/// property lines, and it has none where there is no such line.
pub proof fn lemma_parsed_method_is_last(ts: Seq<TokenView>, pos: int, c: Calendar)
    requires
        calendar_read(ts, pos, c),
    ensures
        exists|props: Seq<Property>|
            #[trigger] lines_read(ts, pos + 2, props) && calendar_props_end(ts, pos + 2) == Some(pos + 2 + 2 * props.len())
                && c.parts().method == last_method(props),
{
    let props = choose|props: Seq<Property>|
        #[trigger] lines_read(ts, pos + 2, props) && calendar_props_end(ts, pos + 2) == Some(pos + 2 + 2 * props.len())
            && (calendar_fold(props) matches Ok(q) && c.parts() == calendar_parts_of(CalendarParseParts { components: c.parts().components, ..q }))
            && components_read(ts, component_starts(ts, pos + 2 + 2 * props.len()), c.parts().components);
    lemma_calendar_method_is_last(props);
}

} // verus!
