//! Availability (RFC 7953).

use vstd::prelude::*;
use vstd::utf8::valid_utf8;
use std::marker::PhantomData;
use crate::components::{
    blocks, delimiter, first_err, lemma_blocks_valid, lemma_delimiter_valid, lemma_line_valid, lemma_lines_valid,
    lemma_opt_line_valid, line, lines, opt_line, start_checks, check_start, write_blocks, write_delimiter,
    write_line, write_lines, write_opt_line,
    ComponentError,
};
use crate::properties::component::availability::{BusyType};
use crate::properties::component::change::{DateTimeCreated, DateTimeStamp, LastModified, Sequence};
use crate::properties::component::datetime::{DateTimeEnd, DateTimeStart, Duration};
use crate::properties::component::descriptive::{Categories, Classification, Comment, Description, Location, Priority, Summary};
use crate::properties::component::relationship::{Contact, Organizer, Uid, UniformResourceLocator};
use crate::properties::{Iana, Xprop};
use crate::properties::component::datetime::value_type_check;
use crate::values::datetime::DateOrDatetime;
use crate::values::Ical;
use crate::components::{due_value, end_value};
use crate::properties::component::recurrence::{ExceptionDateTimes, RRule, RecurrenceDateTimes};
use crate::properties::component::relationship::RecurrenceId;

use crate::ast::property::Property;
use crate::properties::PropertyError;
verus! {

/// The properties of a [`Availability`] or of a [`AvailabilityBuilder`].
pub struct AvailabilityParts {
    /// `dtstamp`.
    pub dtstamp: DateTimeStamp,
    /// `uid`.
    pub uid: Uid,
    /// `busytype`.
    pub busytype: Option<BusyType>,
    /// `class`.
    pub class: Option<Classification>,
    /// `created`.
    pub created: Option<DateTimeCreated>,
    /// `description`.
    pub description: Option<Description>,
    /// `dtstart`.
    pub dtstart: Option<DateTimeStart>,
    /// `last_mod`.
    pub last_mod: Option<LastModified>,
    /// `location`.
    pub location: Option<Location>,
    /// `organizer`.
    pub organizer: Option<Organizer>,
    /// `priority`.
    pub priority: Option<Priority>,
    /// `seq`.
    pub seq: Option<Sequence>,
    /// `summary`.
    pub summary: Option<Summary>,
    /// `url`.
    pub url: Option<UniformResourceLocator>,
    /// `dtend`.
    pub dtend: Option<DateTimeEnd>,
    /// `duration`.
    pub duration: Option<Duration>,
    /// `categories`.
    pub categories: Seq<Categories>,
    /// `comment`.
    pub comment: Seq<Comment>,
    /// `contact`.
    pub contact: Seq<Contact>,
    /// `xprop`.
    pub xprop: Seq<Xprop>,
    /// `iana`.
    pub iana: Seq<Iana>,
    /// `available`.
    pub available: Seq<Available>,
}

/// A `VAVAILABILITY` component (RFC 7953 §3.1): the time a calendar user is
/// available, holding the `AVAILABLE` periods within it.
#[derive(Debug)]
pub struct Availability {
    dtstamp: DateTimeStamp,
    uid: Uid,
    busytype: Option<BusyType>,
    class: Option<Classification>,
    created: Option<DateTimeCreated>,
    description: Option<Description>,
    dtstart: Option<DateTimeStart>,
    last_mod: Option<LastModified>,
    location: Option<Location>,
    organizer: Option<Organizer>,
    priority: Option<Priority>,
    seq: Option<Sequence>,
    summary: Option<Summary>,
    url: Option<UniformResourceLocator>,
    dtend: Option<DateTimeEnd>,
    duration: Option<Duration>,
    categories: Vec<Categories>,
    comment: Vec<Comment>,
    contact: Vec<Contact>,
    xprop: Vec<Xprop>,
    iana: Vec<Iana>,
    available: Vec<Available>,
}

/// Lines 0 of a written [`Availability`].
pub open spec fn availability_lines_0(p: AvailabilityParts) -> Seq<u8> {
    line(p.dtstamp)
        + line(p.uid)
        + opt_line(p.busytype)
        + opt_line(p.class)
        + opt_line(p.created)
        + opt_line(p.description)
        + opt_line(p.dtstart)
        + opt_line(p.last_mod)
}

/// Lines 1 of a written [`Availability`].
pub open spec fn availability_lines_1(p: AvailabilityParts) -> Seq<u8> {
    opt_line(p.location)
        + opt_line(p.organizer)
        + opt_line(p.priority)
        + opt_line(p.seq)
        + opt_line(p.summary)
        + opt_line(p.url)
        + opt_line(p.dtend)
        + opt_line(p.duration)
}

/// Lines 2 of a written [`Availability`].
pub open spec fn availability_lines_2(p: AvailabilityParts) -> Seq<u8> {
    lines(p.categories)
        + lines(p.comment)
        + lines(p.contact)
        + lines(p.xprop)
        + lines(p.iana)
        + blocks(p.available)
}

/// The lines of a written [`Availability`], between its delimiters.
#[verifier::opaque]
pub open spec fn availability_body(p: AvailabilityParts) -> Seq<u8> {
    availability_lines_0(p) + availability_lines_1(p) + availability_lines_2(p)
}

proof fn lemma_availability_lines_0_valid(p: AvailabilityParts)
    ensures
        valid_utf8(availability_lines_0(p)),
{
    lemma_line_valid(p.dtstamp);
    lemma_line_valid(p.uid);
    lemma_opt_line_valid(p.busytype);
    lemma_opt_line_valid(p.class);
    lemma_opt_line_valid(p.created);
    lemma_opt_line_valid(p.description);
    lemma_opt_line_valid(p.dtstart);
    lemma_opt_line_valid(p.last_mod);
    vstd::utf8::valid_utf8_concat(line(p.dtstamp), line(p.uid));
    vstd::utf8::valid_utf8_concat(line(p.dtstamp) + line(p.uid), opt_line(p.busytype));
    vstd::utf8::valid_utf8_concat(line(p.dtstamp) + line(p.uid) + opt_line(p.busytype), opt_line(p.class));
    vstd::utf8::valid_utf8_concat(line(p.dtstamp) + line(p.uid) + opt_line(p.busytype) + opt_line(p.class), opt_line(p.created));
    vstd::utf8::valid_utf8_concat(line(p.dtstamp) + line(p.uid) + opt_line(p.busytype) + opt_line(p.class) + opt_line(p.created), opt_line(p.description));
    vstd::utf8::valid_utf8_concat(line(p.dtstamp) + line(p.uid) + opt_line(p.busytype) + opt_line(p.class) + opt_line(p.created) + opt_line(p.description), opt_line(p.dtstart));
    vstd::utf8::valid_utf8_concat(line(p.dtstamp) + line(p.uid) + opt_line(p.busytype) + opt_line(p.class) + opt_line(p.created) + opt_line(p.description) + opt_line(p.dtstart), opt_line(p.last_mod));
}

proof fn lemma_availability_lines_1_valid(p: AvailabilityParts)
    ensures
        valid_utf8(availability_lines_1(p)),
{
    lemma_opt_line_valid(p.location);
    lemma_opt_line_valid(p.organizer);
    lemma_opt_line_valid(p.priority);
    lemma_opt_line_valid(p.seq);
    lemma_opt_line_valid(p.summary);
    lemma_opt_line_valid(p.url);
    lemma_opt_line_valid(p.dtend);
    lemma_opt_line_valid(p.duration);
    vstd::utf8::valid_utf8_concat(opt_line(p.location), opt_line(p.organizer));
    vstd::utf8::valid_utf8_concat(opt_line(p.location) + opt_line(p.organizer), opt_line(p.priority));
    vstd::utf8::valid_utf8_concat(opt_line(p.location) + opt_line(p.organizer) + opt_line(p.priority), opt_line(p.seq));
    vstd::utf8::valid_utf8_concat(opt_line(p.location) + opt_line(p.organizer) + opt_line(p.priority) + opt_line(p.seq), opt_line(p.summary));
    vstd::utf8::valid_utf8_concat(opt_line(p.location) + opt_line(p.organizer) + opt_line(p.priority) + opt_line(p.seq) + opt_line(p.summary), opt_line(p.url));
    vstd::utf8::valid_utf8_concat(opt_line(p.location) + opt_line(p.organizer) + opt_line(p.priority) + opt_line(p.seq) + opt_line(p.summary) + opt_line(p.url), opt_line(p.dtend));
    vstd::utf8::valid_utf8_concat(opt_line(p.location) + opt_line(p.organizer) + opt_line(p.priority) + opt_line(p.seq) + opt_line(p.summary) + opt_line(p.url) + opt_line(p.dtend), opt_line(p.duration));
}

proof fn lemma_availability_lines_2_valid(p: AvailabilityParts)
    ensures
        valid_utf8(availability_lines_2(p)),
{
    lemma_lines_valid(p.categories);
    lemma_lines_valid(p.comment);
    lemma_lines_valid(p.contact);
    lemma_lines_valid(p.xprop);
    lemma_lines_valid(p.iana);
    lemma_blocks_valid(p.available);
    vstd::utf8::valid_utf8_concat(lines(p.categories), lines(p.comment));
    vstd::utf8::valid_utf8_concat(lines(p.categories) + lines(p.comment), lines(p.contact));
    vstd::utf8::valid_utf8_concat(lines(p.categories) + lines(p.comment) + lines(p.contact), lines(p.xprop));
    vstd::utf8::valid_utf8_concat(lines(p.categories) + lines(p.comment) + lines(p.contact) + lines(p.xprop), lines(p.iana));
    vstd::utf8::valid_utf8_concat(lines(p.categories) + lines(p.comment) + lines(p.contact) + lines(p.xprop) + lines(p.iana), blocks(p.available));
}

proof fn lemma_availability_body_valid(p: AvailabilityParts)
    ensures
        valid_utf8(availability_body(p)),
{
    reveal(availability_body);
    lemma_availability_lines_0_valid(p);
    lemma_availability_lines_1_valid(p);
    lemma_availability_lines_2_valid(p);
    vstd::utf8::valid_utf8_concat(availability_lines_0(p), availability_lines_1(p));
    vstd::utf8::valid_utf8_concat(availability_lines_0(p) + availability_lines_1(p), availability_lines_2(p));
}

impl Availability {
    /// The properties held.
    pub closed spec fn parts(&self) -> AvailabilityParts {
        AvailabilityParts {
            dtstamp: self.dtstamp,
            uid: self.uid,
            busytype: self.busytype,
            class: self.class,
            created: self.created,
            description: self.description,
            dtstart: self.dtstart,
            last_mod: self.last_mod,
            location: self.location,
            organizer: self.organizer,
            priority: self.priority,
            seq: self.seq,
            summary: self.summary,
            url: self.url,
            dtend: self.dtend,
            duration: self.duration,
            categories: self.categories@,
            comment: self.comment@,
            contact: self.contact@,
            xprop: self.xprop@,
            iana: self.iana@,
            available: self.available@,
        }
    }

    /// `dtstamp`.
    pub fn dtstamp(&self) -> (r: &DateTimeStamp)
        ensures
            *r == self.parts().dtstamp,
    {
        &self.dtstamp
    }

    /// `uid`.
    pub fn uid(&self) -> (r: &Uid)
        ensures
            *r == self.parts().uid,
    {
        &self.uid
    }

    /// `busytype`, if set.
    pub fn busytype(&self) -> (r: Option<&BusyType>)
        ensures
            match r {
                Some(x) => self.parts().busytype == Some(*x),
                None => self.parts().busytype is None,
            },
    {
        self.busytype.as_ref()
    }

    /// `class`, if set.
    pub fn class(&self) -> (r: Option<&Classification>)
        ensures
            match r {
                Some(x) => self.parts().class == Some(*x),
                None => self.parts().class is None,
            },
    {
        self.class.as_ref()
    }

    /// `created`, if set.
    pub fn created(&self) -> (r: Option<&DateTimeCreated>)
        ensures
            match r {
                Some(x) => self.parts().created == Some(*x),
                None => self.parts().created is None,
            },
    {
        self.created.as_ref()
    }

    /// `description`, if set.
    pub fn description(&self) -> (r: Option<&Description>)
        ensures
            match r {
                Some(x) => self.parts().description == Some(*x),
                None => self.parts().description is None,
            },
    {
        self.description.as_ref()
    }

    /// `dtstart`, if set.
    pub fn dtstart(&self) -> (r: Option<&DateTimeStart>)
        ensures
            match r {
                Some(x) => self.parts().dtstart == Some(*x),
                None => self.parts().dtstart is None,
            },
    {
        self.dtstart.as_ref()
    }

    /// `last_mod`, if set.
    pub fn last_mod(&self) -> (r: Option<&LastModified>)
        ensures
            match r {
                Some(x) => self.parts().last_mod == Some(*x),
                None => self.parts().last_mod is None,
            },
    {
        self.last_mod.as_ref()
    }

    /// `location`, if set.
    pub fn location(&self) -> (r: Option<&Location>)
        ensures
            match r {
                Some(x) => self.parts().location == Some(*x),
                None => self.parts().location is None,
            },
    {
        self.location.as_ref()
    }

    /// `organizer`, if set.
    pub fn organizer(&self) -> (r: Option<&Organizer>)
        ensures
            match r {
                Some(x) => self.parts().organizer == Some(*x),
                None => self.parts().organizer is None,
            },
    {
        self.organizer.as_ref()
    }

    /// `priority`, if set.
    pub fn priority(&self) -> (r: Option<&Priority>)
        ensures
            match r {
                Some(x) => self.parts().priority == Some(*x),
                None => self.parts().priority is None,
            },
    {
        self.priority.as_ref()
    }

    /// `seq`, if set.
    pub fn seq(&self) -> (r: Option<&Sequence>)
        ensures
            match r {
                Some(x) => self.parts().seq == Some(*x),
                None => self.parts().seq is None,
            },
    {
        self.seq.as_ref()
    }

    /// `summary`, if set.
    pub fn summary(&self) -> (r: Option<&Summary>)
        ensures
            match r {
                Some(x) => self.parts().summary == Some(*x),
                None => self.parts().summary is None,
            },
    {
        self.summary.as_ref()
    }

    /// `url`, if set.
    pub fn url(&self) -> (r: Option<&UniformResourceLocator>)
        ensures
            match r {
                Some(x) => self.parts().url == Some(*x),
                None => self.parts().url is None,
            },
    {
        self.url.as_ref()
    }

    /// `dtend`, if set.
    pub fn dtend(&self) -> (r: Option<&DateTimeEnd>)
        ensures
            match r {
                Some(x) => self.parts().dtend == Some(*x),
                None => self.parts().dtend is None,
            },
    {
        self.dtend.as_ref()
    }

    /// `duration`, if set.
    pub fn duration(&self) -> (r: Option<&Duration>)
        ensures
            match r {
                Some(x) => self.parts().duration == Some(*x),
                None => self.parts().duration is None,
            },
    {
        self.duration.as_ref()
    }

    /// `categories`, in order.
    pub fn categories(&self) -> (r: &[Categories])
        ensures
            r@ == self.parts().categories,
    {
        self.categories.as_slice()
    }

    /// `comment`, in order.
    pub fn comment(&self) -> (r: &[Comment])
        ensures
            r@ == self.parts().comment,
    {
        self.comment.as_slice()
    }

    /// `contact`, in order.
    pub fn contact(&self) -> (r: &[Contact])
        ensures
            r@ == self.parts().contact,
    {
        self.contact.as_slice()
    }

    /// `xprop`, in order.
    pub fn xprop(&self) -> (r: &[Xprop])
        ensures
            r@ == self.parts().xprop,
    {
        self.xprop.as_slice()
    }

    /// `iana`, in order.
    pub fn iana(&self) -> (r: &[Iana])
        ensures
            r@ == self.parts().iana,
    {
        self.iana.as_slice()
    }

    /// `available`, in order.
    pub fn available(&self) -> (r: &[Available])
        ensures
            r@ == self.parts().available,
    {
        self.available.as_slice()
    }

    fn write_lines_0(&self, out: &mut Vec<u8>)
        ensures
            final(out)@ == old(out)@ + availability_lines_0(self.parts()),
    {
        write_line(&self.dtstamp, out);
        write_line(&self.uid, out);
        write_opt_line(&self.busytype, out);
        write_opt_line(&self.class, out);
        write_opt_line(&self.created, out);
        write_opt_line(&self.description, out);
        write_opt_line(&self.dtstart, out);
        write_opt_line(&self.last_mod, out);
        assert(out@ =~= old(out)@ + availability_lines_0(self.parts()));
    }

    fn write_lines_1(&self, out: &mut Vec<u8>)
        ensures
            final(out)@ == old(out)@ + availability_lines_1(self.parts()),
    {
        write_opt_line(&self.location, out);
        write_opt_line(&self.organizer, out);
        write_opt_line(&self.priority, out);
        write_opt_line(&self.seq, out);
        write_opt_line(&self.summary, out);
        write_opt_line(&self.url, out);
        write_opt_line(&self.dtend, out);
        write_opt_line(&self.duration, out);
        assert(out@ =~= old(out)@ + availability_lines_1(self.parts()));
    }

    fn write_lines_2(&self, out: &mut Vec<u8>)
        ensures
            final(out)@ == old(out)@ + availability_lines_2(self.parts()),
    {
        write_lines(self.categories.as_slice(), out);
        write_lines(self.comment.as_slice(), out);
        write_lines(self.contact.as_slice(), out);
        write_lines(self.xprop.as_slice(), out);
        write_lines(self.iana.as_slice(), out);
        write_blocks(self.available.as_slice(), out);
        assert(out@ =~= old(out)@ + availability_lines_2(self.parts()));
    }

    fn write_body(&self, out: &mut Vec<u8>)
        ensures
            final(out)@ == old(out)@ + availability_body(self.parts()),
    {
        reveal(availability_body);
        self.write_lines_0(out);
        self.write_lines_1(out);
        self.write_lines_2(out);
        assert(out@ =~= old(out)@ + availability_body(self.parts()));
    }
}

impl Ical for Availability {
    /// `BEGIN:VAVAILABILITY`, a line for each property, each nested component, and
    /// `END:VAVAILABILITY`.
    open spec fn ical(&self) -> Seq<u8> {
        delimiter("BEGIN:", "VAVAILABILITY") + availability_body(self.parts()) + delimiter("END:", "VAVAILABILITY")
    }

    proof fn lemma_ical_valid(&self) {
        lemma_delimiter_valid("BEGIN:", "VAVAILABILITY");
        lemma_delimiter_valid("END:", "VAVAILABILITY");
        lemma_availability_body_valid(self.parts());
        vstd::utf8::valid_utf8_concat(delimiter("BEGIN:", "VAVAILABILITY"), availability_body(self.parts()));
        vstd::utf8::valid_utf8_concat(
            delimiter("BEGIN:", "VAVAILABILITY") + availability_body(self.parts()),
            delimiter("END:", "VAVAILABILITY"),
        );
    }

    fn write_to(&self, out: &mut Vec<u8>) {
        write_delimiter("BEGIN:", "VAVAILABILITY", out);
        self.write_body(out);
        write_delimiter("END:", "VAVAILABILITY", out);
        assert(out@ =~= old(out)@ + self.ical());
    }
}

/// What building a [`Availability`] checks, in order; the first failure is the outcome.
pub open spec fn availability_check(p: AvailabilityParts) -> Result<(), ComponentError> {
    if p.duration is Some && p.dtstart is None {
        Err(ComponentError::Requires("DURATION", "DTSTART"))
    } else {
        match p.dtstart {
            Some(s) => start_checks(s, None, end_value(p.dtend), "DTEND", Seq::empty(), Seq::empty()),
            None => Ok(()),
        }
    }
}

/// The state of a builder before either of its two mutually exclusive ends
/// has been set.
#[derive(Debug)]
pub struct Unset;

/// The state of a builder once `DTEND` is set: `DURATION` can no longer be.
#[derive(Debug)]
pub struct HasDtend;

/// The state of a builder once `DURATION` is set: the other end can no
/// longer be.
#[derive(Debug)]
pub struct HasDuration;

/// Builds an [`Availability`]; `DTEND` and `DURATION` exclude each other by
/// the builder's state.
#[derive(Debug)]
pub struct AvailabilityBuilder<S> {
    dtstamp: DateTimeStamp,
    uid: Uid,
    busytype: Option<BusyType>,
    class: Option<Classification>,
    created: Option<DateTimeCreated>,
    description: Option<Description>,
    dtstart: Option<DateTimeStart>,
    last_mod: Option<LastModified>,
    location: Option<Location>,
    organizer: Option<Organizer>,
    priority: Option<Priority>,
    seq: Option<Sequence>,
    summary: Option<Summary>,
    url: Option<UniformResourceLocator>,
    dtend: Option<DateTimeEnd>,
    duration: Option<Duration>,
    categories: Vec<Categories>,
    comment: Vec<Comment>,
    contact: Vec<Contact>,
    xprop: Vec<Xprop>,
    iana: Vec<Iana>,
    available: Vec<Available>,
    _state: PhantomData<S>,
}

impl<S> AvailabilityBuilder<S> {
    /// The properties held.
    pub closed spec fn parts(&self) -> AvailabilityParts {
        AvailabilityParts {
            dtstamp: self.dtstamp,
            uid: self.uid,
            busytype: self.busytype,
            class: self.class,
            created: self.created,
            description: self.description,
            dtstart: self.dtstart,
            last_mod: self.last_mod,
            location: self.location,
            organizer: self.organizer,
            priority: self.priority,
            seq: self.seq,
            summary: self.summary,
            url: self.url,
            dtend: self.dtend,
            duration: self.duration,
            categories: self.categories@,
            comment: self.comment@,
            contact: self.contact@,
            xprop: self.xprop@,
            iana: self.iana@,
            available: self.available@,
        }
    }

    /// The same properties, in another state.
    fn retag<S2>(self) -> (r: AvailabilityBuilder<S2>)
        ensures
            r.parts() == self.parts(),
    {
        AvailabilityBuilder {
            dtstamp: self.dtstamp,
            uid: self.uid,
            busytype: self.busytype,
            class: self.class,
            created: self.created,
            description: self.description,
            dtstart: self.dtstart,
            last_mod: self.last_mod,
            location: self.location,
            organizer: self.organizer,
            priority: self.priority,
            seq: self.seq,
            summary: self.summary,
            url: self.url,
            dtend: self.dtend,
            duration: self.duration,
            categories: self.categories,
            comment: self.comment,
            contact: self.contact,
            xprop: self.xprop,
            iana: self.iana,
            available: self.available,
            _state: PhantomData,
        }
    }

    /// Sets `busytype`.
    pub fn busytype(self, v: BusyType) -> (r: AvailabilityBuilder<S>)
        ensures
            r.parts() == (AvailabilityParts { busytype: Some(v), ..self.parts() }),
    {
        let mut b = self;
        b.busytype = Some(v);
        b
    }

    /// Sets `class`.
    pub fn class(self, v: Classification) -> (r: AvailabilityBuilder<S>)
        ensures
            r.parts() == (AvailabilityParts { class: Some(v), ..self.parts() }),
    {
        let mut b = self;
        b.class = Some(v);
        b
    }

    /// Sets `created`.
    pub fn created(self, v: DateTimeCreated) -> (r: AvailabilityBuilder<S>)
        ensures
            r.parts() == (AvailabilityParts { created: Some(v), ..self.parts() }),
    {
        let mut b = self;
        b.created = Some(v);
        b
    }

    /// Sets `description`.
    pub fn description(self, v: Description) -> (r: AvailabilityBuilder<S>)
        ensures
            r.parts() == (AvailabilityParts { description: Some(v), ..self.parts() }),
    {
        let mut b = self;
        b.description = Some(v);
        b
    }

    /// Sets `dtstart`.
    pub fn dtstart(self, v: DateTimeStart) -> (r: AvailabilityBuilder<S>)
        ensures
            r.parts() == (AvailabilityParts { dtstart: Some(v), ..self.parts() }),
    {
        let mut b = self;
        b.dtstart = Some(v);
        b
    }

    /// Sets `last_mod`.
    pub fn last_mod(self, v: LastModified) -> (r: AvailabilityBuilder<S>)
        ensures
            r.parts() == (AvailabilityParts { last_mod: Some(v), ..self.parts() }),
    {
        let mut b = self;
        b.last_mod = Some(v);
        b
    }

    /// Sets `location`.
    pub fn location(self, v: Location) -> (r: AvailabilityBuilder<S>)
        ensures
            r.parts() == (AvailabilityParts { location: Some(v), ..self.parts() }),
    {
        let mut b = self;
        b.location = Some(v);
        b
    }

    /// Sets `organizer`.
    pub fn organizer(self, v: Organizer) -> (r: AvailabilityBuilder<S>)
        ensures
            r.parts() == (AvailabilityParts { organizer: Some(v), ..self.parts() }),
    {
        let mut b = self;
        b.organizer = Some(v);
        b
    }

    /// Sets `priority`.
    pub fn priority(self, v: Priority) -> (r: AvailabilityBuilder<S>)
        ensures
            r.parts() == (AvailabilityParts { priority: Some(v), ..self.parts() }),
    {
        let mut b = self;
        b.priority = Some(v);
        b
    }

    /// Sets `seq`.
    pub fn seq(self, v: Sequence) -> (r: AvailabilityBuilder<S>)
        ensures
            r.parts() == (AvailabilityParts { seq: Some(v), ..self.parts() }),
    {
        let mut b = self;
        b.seq = Some(v);
        b
    }

    /// Sets `summary`.
    pub fn summary(self, v: Summary) -> (r: AvailabilityBuilder<S>)
        ensures
            r.parts() == (AvailabilityParts { summary: Some(v), ..self.parts() }),
    {
        let mut b = self;
        b.summary = Some(v);
        b
    }

    /// Sets `url`.
    pub fn url(self, v: UniformResourceLocator) -> (r: AvailabilityBuilder<S>)
        ensures
            r.parts() == (AvailabilityParts { url: Some(v), ..self.parts() }),
    {
        let mut b = self;
        b.url = Some(v);
        b
    }

    /// Adds a `categories`.
    pub fn categories(self, v: Categories) -> (r: AvailabilityBuilder<S>)
        ensures
            r.parts() == (AvailabilityParts { categories: self.parts().categories.push(v), ..self.parts() }),
    {
        let mut b = self;
        b.categories.push(v);
        b
    }

    /// Adds a `comment`.
    pub fn comment(self, v: Comment) -> (r: AvailabilityBuilder<S>)
        ensures
            r.parts() == (AvailabilityParts { comment: self.parts().comment.push(v), ..self.parts() }),
    {
        let mut b = self;
        b.comment.push(v);
        b
    }

    /// Adds a `contact`.
    pub fn contact(self, v: Contact) -> (r: AvailabilityBuilder<S>)
        ensures
            r.parts() == (AvailabilityParts { contact: self.parts().contact.push(v), ..self.parts() }),
    {
        let mut b = self;
        b.contact.push(v);
        b
    }

    /// Adds a `xprop`.
    pub fn xprop(self, v: Xprop) -> (r: AvailabilityBuilder<S>)
        ensures
            r.parts() == (AvailabilityParts { xprop: self.parts().xprop.push(v), ..self.parts() }),
    {
        let mut b = self;
        b.xprop.push(v);
        b
    }

    /// Adds a `iana`.
    pub fn iana(self, v: Iana) -> (r: AvailabilityBuilder<S>)
        ensures
            r.parts() == (AvailabilityParts { iana: self.parts().iana.push(v), ..self.parts() }),
    {
        let mut b = self;
        b.iana.push(v);
        b
    }

    /// Adds a `available`.
    pub fn available(self, v: Available) -> (r: AvailabilityBuilder<S>)
        ensures
            r.parts() == (AvailabilityParts { available: self.parts().available.push(v), ..self.parts() }),
    {
        let mut b = self;
        b.available.push(v);
        b
    }

    /// Checks the rules that hold between the properties, and builds the
    /// component.
    pub fn build(self) -> (r: Result<Availability, ComponentError>)
        ensures
            r is Ok <==> availability_check(self.parts()) is Ok,
            r matches Err(e) ==> availability_check(self.parts()) == Err::<(), ComponentError>(e),
            r matches Ok(c) ==> c.parts() == self.parts(),
    {
        if self.duration.is_some() && self.dtstart.is_none() {
            return Err(ComponentError::Requires("DURATION", "DTSTART"));
        }
        let end = match &self.dtend {
            Some(e) => Some(e.value()),
            None => None,
        };
        let no_exdate: Vec<ExceptionDateTimes> = Vec::new();
        let no_rdate: Vec<RecurrenceDateTimes> = Vec::new();
        if let Some(s) = &self.dtstart {
            if let Err(e) = check_start(s, None, end, "DTEND", no_exdate.as_slice(), no_rdate.as_slice()) {
                return Err(e);
            }
        }
        Ok(
            Availability {
                dtstamp: self.dtstamp,
                uid: self.uid,
                busytype: self.busytype,
                class: self.class,
                created: self.created,
                description: self.description,
                dtstart: self.dtstart,
                last_mod: self.last_mod,
                location: self.location,
                organizer: self.organizer,
                priority: self.priority,
                seq: self.seq,
                summary: self.summary,
                url: self.url,
                dtend: self.dtend,
                duration: self.duration,
                categories: self.categories,
                comment: self.comment,
                contact: self.contact,
                xprop: self.xprop,
                iana: self.iana,
                available: self.available,
            }
        )
    }
}

impl AvailabilityBuilder<Unset> {
    /// A builder with the two properties an availability always requires.
    pub fn new(dtstamp: DateTimeStamp, uid: Uid) -> (r: AvailabilityBuilder<Unset>)
        ensures
            r.parts() == (AvailabilityParts { dtstamp, uid, busytype: None, class: None, created: None, description: None, dtstart: None, last_mod: None, location: None, organizer: None, priority: None, seq: None, summary: None, url: None, dtend: None, duration: None, categories: Seq::empty(), comment: Seq::empty(), contact: Seq::empty(), xprop: Seq::empty(), iana: Seq::empty(), available: Seq::empty() }),
    {
        AvailabilityBuilder {
            dtstamp,
            uid,
            busytype: None,
            class: None,
            created: None,
            description: None,
            dtstart: None,
            last_mod: None,
            location: None,
            organizer: None,
            priority: None,
            seq: None,
            summary: None,
            url: None,
            dtend: None,
            duration: None,
            categories: Vec::new(),
            comment: Vec::new(),
            contact: Vec::new(),
            xprop: Vec::new(),
            iana: Vec::new(),
            available: Vec::new(),
            _state: PhantomData,
        }
    }

    /// Sets `dtend`, which rules out the other end of the component.
    pub fn dtend(self, v: DateTimeEnd) -> (r: AvailabilityBuilder<HasDtend>)
        ensures
            r.parts() == (AvailabilityParts { dtend: Some(v), ..self.parts() }),
    {
        let mut b: AvailabilityBuilder<HasDtend> = self.retag();
        b.dtend = Some(v);
        b
    }

    /// Sets `duration`, which rules out the other end of the component.
    pub fn duration(self, v: Duration) -> (r: AvailabilityBuilder<HasDuration>)
        ensures
            r.parts() == (AvailabilityParts { duration: Some(v), ..self.parts() }),
    {
        let mut b: AvailabilityBuilder<HasDuration> = self.retag();
        b.duration = Some(v);
        b
    }
}

/// The properties of a [`Available`] or of a [`AvailableBuilder`].
pub struct AvailableParts {
    /// `dtstamp`.
    pub dtstamp: Option<DateTimeStamp>,
    /// `dtstart`.
    pub dtstart: DateTimeStart,
    /// `uid`.
    pub uid: Uid,
    /// `created`.
    pub created: Option<DateTimeCreated>,
    /// `description`.
    pub description: Option<Description>,
    /// `last_mod`.
    pub last_mod: Option<LastModified>,
    /// `location`.
    pub location: Option<Location>,
    /// `recurid`.
    pub recurid: Option<RecurrenceId>,
    /// `rrule`.
    pub rrule: Option<RRule>,
    /// `summary`.
    pub summary: Option<Summary>,
    /// `dtend`.
    pub dtend: Option<DateTimeEnd>,
    /// `duration`.
    pub duration: Option<Duration>,
    /// `categories`.
    pub categories: Seq<Categories>,
    /// `comment`.
    pub comment: Seq<Comment>,
    /// `contact`.
    pub contact: Seq<Contact>,
    /// `exdate`.
    pub exdate: Seq<ExceptionDateTimes>,
    /// `rdate`.
    pub rdate: Seq<RecurrenceDateTimes>,
    /// `xprop`.
    pub xprop: Seq<Xprop>,
    /// `iana`.
    pub iana: Seq<Iana>,
}

/// An `AVAILABLE` component (RFC 7953 §3.2): a period of availability
/// within a `VAVAILABILITY`.
#[derive(Debug)]
pub struct Available {
    dtstamp: Option<DateTimeStamp>,
    dtstart: DateTimeStart,
    uid: Uid,
    created: Option<DateTimeCreated>,
    description: Option<Description>,
    last_mod: Option<LastModified>,
    location: Option<Location>,
    recurid: Option<RecurrenceId>,
    rrule: Option<RRule>,
    summary: Option<Summary>,
    dtend: Option<DateTimeEnd>,
    duration: Option<Duration>,
    categories: Vec<Categories>,
    comment: Vec<Comment>,
    contact: Vec<Contact>,
    exdate: Vec<ExceptionDateTimes>,
    rdate: Vec<RecurrenceDateTimes>,
    xprop: Vec<Xprop>,
    iana: Vec<Iana>,
}

/// Lines 0 of a written [`Available`].
pub open spec fn available_lines_0(p: AvailableParts) -> Seq<u8> {
    opt_line(p.dtstamp)
        + line(p.dtstart)
        + line(p.uid)
        + opt_line(p.created)
        + opt_line(p.description)
        + opt_line(p.last_mod)
        + opt_line(p.location)
        + opt_line(p.recurid)
}

/// Lines 1 of a written [`Available`].
pub open spec fn available_lines_1(p: AvailableParts) -> Seq<u8> {
    opt_line(p.rrule)
        + opt_line(p.summary)
        + opt_line(p.dtend)
        + opt_line(p.duration)
        + lines(p.categories)
        + lines(p.comment)
        + lines(p.contact)
        + lines(p.exdate)
}

/// Lines 2 of a written [`Available`].
pub open spec fn available_lines_2(p: AvailableParts) -> Seq<u8> {
    lines(p.rdate)
        + lines(p.xprop)
        + lines(p.iana)
}

/// The lines of a written [`Available`], between its delimiters.
#[verifier::opaque]
pub open spec fn available_body(p: AvailableParts) -> Seq<u8> {
    available_lines_0(p) + available_lines_1(p) + available_lines_2(p)
}

proof fn lemma_available_lines_0_valid(p: AvailableParts)
    ensures
        valid_utf8(available_lines_0(p)),
{
    lemma_opt_line_valid(p.dtstamp);
    lemma_line_valid(p.dtstart);
    lemma_line_valid(p.uid);
    lemma_opt_line_valid(p.created);
    lemma_opt_line_valid(p.description);
    lemma_opt_line_valid(p.last_mod);
    lemma_opt_line_valid(p.location);
    lemma_opt_line_valid(p.recurid);
    vstd::utf8::valid_utf8_concat(opt_line(p.dtstamp), line(p.dtstart));
    vstd::utf8::valid_utf8_concat(opt_line(p.dtstamp) + line(p.dtstart), line(p.uid));
    vstd::utf8::valid_utf8_concat(opt_line(p.dtstamp) + line(p.dtstart) + line(p.uid), opt_line(p.created));
    vstd::utf8::valid_utf8_concat(opt_line(p.dtstamp) + line(p.dtstart) + line(p.uid) + opt_line(p.created), opt_line(p.description));
    vstd::utf8::valid_utf8_concat(opt_line(p.dtstamp) + line(p.dtstart) + line(p.uid) + opt_line(p.created) + opt_line(p.description), opt_line(p.last_mod));
    vstd::utf8::valid_utf8_concat(opt_line(p.dtstamp) + line(p.dtstart) + line(p.uid) + opt_line(p.created) + opt_line(p.description) + opt_line(p.last_mod), opt_line(p.location));
    vstd::utf8::valid_utf8_concat(opt_line(p.dtstamp) + line(p.dtstart) + line(p.uid) + opt_line(p.created) + opt_line(p.description) + opt_line(p.last_mod) + opt_line(p.location), opt_line(p.recurid));
}

proof fn lemma_available_lines_1_valid(p: AvailableParts)
    ensures
        valid_utf8(available_lines_1(p)),
{
    lemma_opt_line_valid(p.rrule);
    lemma_opt_line_valid(p.summary);
    lemma_opt_line_valid(p.dtend);
    lemma_opt_line_valid(p.duration);
    lemma_lines_valid(p.categories);
    lemma_lines_valid(p.comment);
    lemma_lines_valid(p.contact);
    lemma_lines_valid(p.exdate);
    vstd::utf8::valid_utf8_concat(opt_line(p.rrule), opt_line(p.summary));
    vstd::utf8::valid_utf8_concat(opt_line(p.rrule) + opt_line(p.summary), opt_line(p.dtend));
    vstd::utf8::valid_utf8_concat(opt_line(p.rrule) + opt_line(p.summary) + opt_line(p.dtend), opt_line(p.duration));
    vstd::utf8::valid_utf8_concat(opt_line(p.rrule) + opt_line(p.summary) + opt_line(p.dtend) + opt_line(p.duration), lines(p.categories));
    vstd::utf8::valid_utf8_concat(opt_line(p.rrule) + opt_line(p.summary) + opt_line(p.dtend) + opt_line(p.duration) + lines(p.categories), lines(p.comment));
    vstd::utf8::valid_utf8_concat(opt_line(p.rrule) + opt_line(p.summary) + opt_line(p.dtend) + opt_line(p.duration) + lines(p.categories) + lines(p.comment), lines(p.contact));
    vstd::utf8::valid_utf8_concat(opt_line(p.rrule) + opt_line(p.summary) + opt_line(p.dtend) + opt_line(p.duration) + lines(p.categories) + lines(p.comment) + lines(p.contact), lines(p.exdate));
}

proof fn lemma_available_lines_2_valid(p: AvailableParts)
    ensures
        valid_utf8(available_lines_2(p)),
{
    lemma_lines_valid(p.rdate);
    lemma_lines_valid(p.xprop);
    lemma_lines_valid(p.iana);
    vstd::utf8::valid_utf8_concat(lines(p.rdate), lines(p.xprop));
    vstd::utf8::valid_utf8_concat(lines(p.rdate) + lines(p.xprop), lines(p.iana));
}

proof fn lemma_available_body_valid(p: AvailableParts)
    ensures
        valid_utf8(available_body(p)),
{
    reveal(available_body);
    lemma_available_lines_0_valid(p);
    lemma_available_lines_1_valid(p);
    lemma_available_lines_2_valid(p);
    vstd::utf8::valid_utf8_concat(available_lines_0(p), available_lines_1(p));
    vstd::utf8::valid_utf8_concat(available_lines_0(p) + available_lines_1(p), available_lines_2(p));
}

impl Available {
    /// The properties held.
    pub closed spec fn parts(&self) -> AvailableParts {
        AvailableParts {
            dtstamp: self.dtstamp,
            dtstart: self.dtstart,
            uid: self.uid,
            created: self.created,
            description: self.description,
            last_mod: self.last_mod,
            location: self.location,
            recurid: self.recurid,
            rrule: self.rrule,
            summary: self.summary,
            dtend: self.dtend,
            duration: self.duration,
            categories: self.categories@,
            comment: self.comment@,
            contact: self.contact@,
            exdate: self.exdate@,
            rdate: self.rdate@,
            xprop: self.xprop@,
            iana: self.iana@,
        }
    }

    /// `dtstamp`, if set.
    pub fn dtstamp(&self) -> (r: Option<&DateTimeStamp>)
        ensures
            match r {
                Some(x) => self.parts().dtstamp == Some(*x),
                None => self.parts().dtstamp is None,
            },
    {
        self.dtstamp.as_ref()
    }

    /// `dtstart`.
    pub fn dtstart(&self) -> (r: &DateTimeStart)
        ensures
            *r == self.parts().dtstart,
    {
        &self.dtstart
    }

    /// `uid`.
    pub fn uid(&self) -> (r: &Uid)
        ensures
            *r == self.parts().uid,
    {
        &self.uid
    }

    /// `created`, if set.
    pub fn created(&self) -> (r: Option<&DateTimeCreated>)
        ensures
            match r {
                Some(x) => self.parts().created == Some(*x),
                None => self.parts().created is None,
            },
    {
        self.created.as_ref()
    }

    /// `description`, if set.
    pub fn description(&self) -> (r: Option<&Description>)
        ensures
            match r {
                Some(x) => self.parts().description == Some(*x),
                None => self.parts().description is None,
            },
    {
        self.description.as_ref()
    }

    /// `last_mod`, if set.
    pub fn last_mod(&self) -> (r: Option<&LastModified>)
        ensures
            match r {
                Some(x) => self.parts().last_mod == Some(*x),
                None => self.parts().last_mod is None,
            },
    {
        self.last_mod.as_ref()
    }

    /// `location`, if set.
    pub fn location(&self) -> (r: Option<&Location>)
        ensures
            match r {
                Some(x) => self.parts().location == Some(*x),
                None => self.parts().location is None,
            },
    {
        self.location.as_ref()
    }

    /// `recurid`, if set.
    pub fn recurid(&self) -> (r: Option<&RecurrenceId>)
        ensures
            match r {
                Some(x) => self.parts().recurid == Some(*x),
                None => self.parts().recurid is None,
            },
    {
        self.recurid.as_ref()
    }

    /// `rrule`, if set.
    pub fn rrule(&self) -> (r: Option<&RRule>)
        ensures
            match r {
                Some(x) => self.parts().rrule == Some(*x),
                None => self.parts().rrule is None,
            },
    {
        self.rrule.as_ref()
    }

    /// `summary`, if set.
    pub fn summary(&self) -> (r: Option<&Summary>)
        ensures
            match r {
                Some(x) => self.parts().summary == Some(*x),
                None => self.parts().summary is None,
            },
    {
        self.summary.as_ref()
    }

    /// `dtend`, if set.
    pub fn dtend(&self) -> (r: Option<&DateTimeEnd>)
        ensures
            match r {
                Some(x) => self.parts().dtend == Some(*x),
                None => self.parts().dtend is None,
            },
    {
        self.dtend.as_ref()
    }

    /// `duration`, if set.
    pub fn duration(&self) -> (r: Option<&Duration>)
        ensures
            match r {
                Some(x) => self.parts().duration == Some(*x),
                None => self.parts().duration is None,
            },
    {
        self.duration.as_ref()
    }

    /// `categories`, in order.
    pub fn categories(&self) -> (r: &[Categories])
        ensures
            r@ == self.parts().categories,
    {
        self.categories.as_slice()
    }

    /// `comment`, in order.
    pub fn comment(&self) -> (r: &[Comment])
        ensures
            r@ == self.parts().comment,
    {
        self.comment.as_slice()
    }

    /// `contact`, in order.
    pub fn contact(&self) -> (r: &[Contact])
        ensures
            r@ == self.parts().contact,
    {
        self.contact.as_slice()
    }

    /// `exdate`, in order.
    pub fn exdate(&self) -> (r: &[ExceptionDateTimes])
        ensures
            r@ == self.parts().exdate,
    {
        self.exdate.as_slice()
    }

    /// `rdate`, in order.
    pub fn rdate(&self) -> (r: &[RecurrenceDateTimes])
        ensures
            r@ == self.parts().rdate,
    {
        self.rdate.as_slice()
    }

    /// `xprop`, in order.
    pub fn xprop(&self) -> (r: &[Xprop])
        ensures
            r@ == self.parts().xprop,
    {
        self.xprop.as_slice()
    }

    /// `iana`, in order.
    pub fn iana(&self) -> (r: &[Iana])
        ensures
            r@ == self.parts().iana,
    {
        self.iana.as_slice()
    }

    fn write_lines_0(&self, out: &mut Vec<u8>)
        ensures
            final(out)@ == old(out)@ + available_lines_0(self.parts()),
    {
        write_opt_line(&self.dtstamp, out);
        write_line(&self.dtstart, out);
        write_line(&self.uid, out);
        write_opt_line(&self.created, out);
        write_opt_line(&self.description, out);
        write_opt_line(&self.last_mod, out);
        write_opt_line(&self.location, out);
        write_opt_line(&self.recurid, out);
        assert(out@ =~= old(out)@ + available_lines_0(self.parts()));
    }

    fn write_lines_1(&self, out: &mut Vec<u8>)
        ensures
            final(out)@ == old(out)@ + available_lines_1(self.parts()),
    {
        write_opt_line(&self.rrule, out);
        write_opt_line(&self.summary, out);
        write_opt_line(&self.dtend, out);
        write_opt_line(&self.duration, out);
        write_lines(self.categories.as_slice(), out);
        write_lines(self.comment.as_slice(), out);
        write_lines(self.contact.as_slice(), out);
        write_lines(self.exdate.as_slice(), out);
        assert(out@ =~= old(out)@ + available_lines_1(self.parts()));
    }

    fn write_lines_2(&self, out: &mut Vec<u8>)
        ensures
            final(out)@ == old(out)@ + available_lines_2(self.parts()),
    {
        write_lines(self.rdate.as_slice(), out);
        write_lines(self.xprop.as_slice(), out);
        write_lines(self.iana.as_slice(), out);
        assert(out@ =~= old(out)@ + available_lines_2(self.parts()));
    }

    fn write_body(&self, out: &mut Vec<u8>)
        ensures
            final(out)@ == old(out)@ + available_body(self.parts()),
    {
        reveal(available_body);
        self.write_lines_0(out);
        self.write_lines_1(out);
        self.write_lines_2(out);
        assert(out@ =~= old(out)@ + available_body(self.parts()));
    }
}

impl Ical for Available {
    /// `BEGIN:AVAILABLE`, a line for each property, each nested component, and
    /// `END:AVAILABLE`.
    open spec fn ical(&self) -> Seq<u8> {
        delimiter("BEGIN:", "AVAILABLE") + available_body(self.parts()) + delimiter("END:", "AVAILABLE")
    }

    proof fn lemma_ical_valid(&self) {
        lemma_delimiter_valid("BEGIN:", "AVAILABLE");
        lemma_delimiter_valid("END:", "AVAILABLE");
        lemma_available_body_valid(self.parts());
        vstd::utf8::valid_utf8_concat(delimiter("BEGIN:", "AVAILABLE"), available_body(self.parts()));
        vstd::utf8::valid_utf8_concat(
            delimiter("BEGIN:", "AVAILABLE") + available_body(self.parts()),
            delimiter("END:", "AVAILABLE"),
        );
    }

    fn write_to(&self, out: &mut Vec<u8>) {
        write_delimiter("BEGIN:", "AVAILABLE", out);
        self.write_body(out);
        write_delimiter("END:", "AVAILABLE", out);
        assert(out@ =~= old(out)@ + self.ical());
    }
}

/// What building a [`Available`] checks, in order; the first failure is the outcome.
pub open spec fn available_check(p: AvailableParts) -> Result<(), ComponentError> {
    start_checks(p.dtstart, p.rrule, end_value(p.dtend), "DTEND", p.exdate, p.rdate)
}

/// The state of an [`AvailableBuilder`] before `DTEND` or `DURATION` has
/// been set.
#[derive(Debug)]
pub struct AvailableUnset;

/// The state of an [`AvailableBuilder`] once `DTEND` is set.
#[derive(Debug)]
pub struct AvailableHasDtend;

/// The state of an [`AvailableBuilder`] once `DURATION` is set.
#[derive(Debug)]
pub struct AvailableHasDuration;

/// Builds an [`Available`]; `DTEND` and `DURATION` exclude each other by
/// the builder's state.
#[derive(Debug)]
pub struct AvailableBuilder<S> {
    dtstamp: Option<DateTimeStamp>,
    dtstart: DateTimeStart,
    uid: Uid,
    created: Option<DateTimeCreated>,
    description: Option<Description>,
    last_mod: Option<LastModified>,
    location: Option<Location>,
    recurid: Option<RecurrenceId>,
    rrule: Option<RRule>,
    summary: Option<Summary>,
    dtend: Option<DateTimeEnd>,
    duration: Option<Duration>,
    categories: Vec<Categories>,
    comment: Vec<Comment>,
    contact: Vec<Contact>,
    exdate: Vec<ExceptionDateTimes>,
    rdate: Vec<RecurrenceDateTimes>,
    xprop: Vec<Xprop>,
    iana: Vec<Iana>,
    _state: PhantomData<S>,
}

impl<S> AvailableBuilder<S> {
    /// The properties held.
    pub closed spec fn parts(&self) -> AvailableParts {
        AvailableParts {
            dtstamp: self.dtstamp,
            dtstart: self.dtstart,
            uid: self.uid,
            created: self.created,
            description: self.description,
            last_mod: self.last_mod,
            location: self.location,
            recurid: self.recurid,
            rrule: self.rrule,
            summary: self.summary,
            dtend: self.dtend,
            duration: self.duration,
            categories: self.categories@,
            comment: self.comment@,
            contact: self.contact@,
            exdate: self.exdate@,
            rdate: self.rdate@,
            xprop: self.xprop@,
            iana: self.iana@,
        }
    }

    /// The same properties, in another state.
    fn retag<S2>(self) -> (r: AvailableBuilder<S2>)
        ensures
            r.parts() == self.parts(),
    {
        AvailableBuilder {
            dtstamp: self.dtstamp,
            dtstart: self.dtstart,
            uid: self.uid,
            created: self.created,
            description: self.description,
            last_mod: self.last_mod,
            location: self.location,
            recurid: self.recurid,
            rrule: self.rrule,
            summary: self.summary,
            dtend: self.dtend,
            duration: self.duration,
            categories: self.categories,
            comment: self.comment,
            contact: self.contact,
            exdate: self.exdate,
            rdate: self.rdate,
            xprop: self.xprop,
            iana: self.iana,
            _state: PhantomData,
        }
    }

    /// Sets `dtstamp`.
    pub fn dtstamp(self, v: DateTimeStamp) -> (r: AvailableBuilder<S>)
        ensures
            r.parts() == (AvailableParts { dtstamp: Some(v), ..self.parts() }),
    {
        let mut b = self;
        b.dtstamp = Some(v);
        b
    }

    /// Sets `created`.
    pub fn created(self, v: DateTimeCreated) -> (r: AvailableBuilder<S>)
        ensures
            r.parts() == (AvailableParts { created: Some(v), ..self.parts() }),
    {
        let mut b = self;
        b.created = Some(v);
        b
    }

    /// Sets `description`.
    pub fn description(self, v: Description) -> (r: AvailableBuilder<S>)
        ensures
            r.parts() == (AvailableParts { description: Some(v), ..self.parts() }),
    {
        let mut b = self;
        b.description = Some(v);
        b
    }

    /// Sets `last_mod`.
    pub fn last_mod(self, v: LastModified) -> (r: AvailableBuilder<S>)
        ensures
            r.parts() == (AvailableParts { last_mod: Some(v), ..self.parts() }),
    {
        let mut b = self;
        b.last_mod = Some(v);
        b
    }

    /// Sets `location`.
    pub fn location(self, v: Location) -> (r: AvailableBuilder<S>)
        ensures
            r.parts() == (AvailableParts { location: Some(v), ..self.parts() }),
    {
        let mut b = self;
        b.location = Some(v);
        b
    }

    /// Sets `recurid`.
    pub fn recurid(self, v: RecurrenceId) -> (r: AvailableBuilder<S>)
        ensures
            r.parts() == (AvailableParts { recurid: Some(v), ..self.parts() }),
    {
        let mut b = self;
        b.recurid = Some(v);
        b
    }

    /// Sets `rrule`.
    pub fn rrule(self, v: RRule) -> (r: AvailableBuilder<S>)
        ensures
            r.parts() == (AvailableParts { rrule: Some(v), ..self.parts() }),
    {
        let mut b = self;
        b.rrule = Some(v);
        b
    }

    /// Sets `summary`.
    pub fn summary(self, v: Summary) -> (r: AvailableBuilder<S>)
        ensures
            r.parts() == (AvailableParts { summary: Some(v), ..self.parts() }),
    {
        let mut b = self;
        b.summary = Some(v);
        b
    }

    /// Adds a `categories`.
    pub fn categories(self, v: Categories) -> (r: AvailableBuilder<S>)
        ensures
            r.parts() == (AvailableParts { categories: self.parts().categories.push(v), ..self.parts() }),
    {
        let mut b = self;
        b.categories.push(v);
        b
    }

    /// Adds a `comment`.
    pub fn comment(self, v: Comment) -> (r: AvailableBuilder<S>)
        ensures
            r.parts() == (AvailableParts { comment: self.parts().comment.push(v), ..self.parts() }),
    {
        let mut b = self;
        b.comment.push(v);
        b
    }

    /// Adds a `contact`.
    pub fn contact(self, v: Contact) -> (r: AvailableBuilder<S>)
        ensures
            r.parts() == (AvailableParts { contact: self.parts().contact.push(v), ..self.parts() }),
    {
        let mut b = self;
        b.contact.push(v);
        b
    }

    /// Adds a `exdate`.
    pub fn exdate(self, v: ExceptionDateTimes) -> (r: AvailableBuilder<S>)
        ensures
            r.parts() == (AvailableParts { exdate: self.parts().exdate.push(v), ..self.parts() }),
    {
        let mut b = self;
        b.exdate.push(v);
        b
    }

    /// Adds a `rdate`.
    pub fn rdate(self, v: RecurrenceDateTimes) -> (r: AvailableBuilder<S>)
        ensures
            r.parts() == (AvailableParts { rdate: self.parts().rdate.push(v), ..self.parts() }),
    {
        let mut b = self;
        b.rdate.push(v);
        b
    }

    /// Adds a `xprop`.
    pub fn xprop(self, v: Xprop) -> (r: AvailableBuilder<S>)
        ensures
            r.parts() == (AvailableParts { xprop: self.parts().xprop.push(v), ..self.parts() }),
    {
        let mut b = self;
        b.xprop.push(v);
        b
    }

    /// Adds a `iana`.
    pub fn iana(self, v: Iana) -> (r: AvailableBuilder<S>)
        ensures
            r.parts() == (AvailableParts { iana: self.parts().iana.push(v), ..self.parts() }),
    {
        let mut b = self;
        b.iana.push(v);
        b
    }

    /// Checks the rules that hold between the properties, and builds the
    /// component.
    pub fn build(self) -> (r: Result<Available, ComponentError>)
        ensures
            r is Ok <==> available_check(self.parts()) is Ok,
            r matches Err(e) ==> available_check(self.parts()) == Err::<(), ComponentError>(e),
            r matches Ok(c) ==> c.parts() == self.parts(),
    {
        let end = match &self.dtend {
            Some(e) => Some(e.value()),
            None => None,
        };
        if let Err(e) = check_start(&self.dtstart, self.rrule.as_ref(), end, "DTEND", self.exdate.as_slice(), self.rdate.as_slice()) {
            return Err(e);
        }
        Ok(
            Available {
                dtstamp: self.dtstamp,
                dtstart: self.dtstart,
                uid: self.uid,
                created: self.created,
                description: self.description,
                last_mod: self.last_mod,
                location: self.location,
                recurid: self.recurid,
                rrule: self.rrule,
                summary: self.summary,
                dtend: self.dtend,
                duration: self.duration,
                categories: self.categories,
                comment: self.comment,
                contact: self.contact,
                exdate: self.exdate,
                rdate: self.rdate,
                xprop: self.xprop,
                iana: self.iana,
            }
        )
    }
}

impl AvailableBuilder<AvailableUnset> {
    /// A builder with the two properties an available period always requires.
    pub fn new(dtstart: DateTimeStart, uid: Uid) -> (r: AvailableBuilder<AvailableUnset>)
        ensures
            r.parts() == (AvailableParts { dtstamp: None, dtstart, uid, created: None, description: None, last_mod: None, location: None, recurid: None, rrule: None, summary: None, dtend: None, duration: None, categories: Seq::empty(), comment: Seq::empty(), contact: Seq::empty(), exdate: Seq::empty(), rdate: Seq::empty(), xprop: Seq::empty(), iana: Seq::empty() }),
    {
        AvailableBuilder {
            dtstamp: None,
            dtstart,
            uid,
            created: None,
            description: None,
            last_mod: None,
            location: None,
            recurid: None,
            rrule: None,
            summary: None,
            dtend: None,
            duration: None,
            categories: Vec::new(),
            comment: Vec::new(),
            contact: Vec::new(),
            exdate: Vec::new(),
            rdate: Vec::new(),
            xprop: Vec::new(),
            iana: Vec::new(),
            _state: PhantomData,
        }
    }

    /// Sets `dtend`, which rules out the other end of the component.
    pub fn dtend(self, v: DateTimeEnd) -> (r: AvailableBuilder<AvailableHasDtend>)
        ensures
            r.parts() == (AvailableParts { dtend: Some(v), ..self.parts() }),
    {
        let mut b: AvailableBuilder<AvailableHasDtend> = self.retag();
        b.dtend = Some(v);
        b
    }

    /// Sets `duration`, which rules out the other end of the component.
    pub fn duration(self, v: Duration) -> (r: AvailableBuilder<AvailableHasDuration>)
        ensures
            r.parts() == (AvailableParts { duration: Some(v), ..self.parts() }),
    {
        let mut b: AvailableBuilder<AvailableHasDuration> = self.retag();
        b.duration = Some(v);
        b
    }
}


/// The properties of a [`AvailabilityParseBuilder`], as values.
pub ghost struct AvailabilityParseParts {
    /// `dtstamp`.
    pub dtstamp: Option<DateTimeStamp>,
    /// `uid`.
    pub uid: Option<Uid>,
    /// `busytype`.
    pub busytype: Option<BusyType>,
    /// `class`.
    pub class: Option<Classification>,
    /// `created`.
    pub created: Option<DateTimeCreated>,
    /// `description`.
    pub description: Option<Description>,
    /// `dtstart`.
    pub dtstart: Option<DateTimeStart>,
    /// `last_mod`.
    pub last_mod: Option<LastModified>,
    /// `location`.
    pub location: Option<Location>,
    /// `organizer`.
    pub organizer: Option<Organizer>,
    /// `priority`.
    pub priority: Option<Priority>,
    /// `seq`.
    pub seq: Option<Sequence>,
    /// `summary`.
    pub summary: Option<Summary>,
    /// `url`.
    pub url: Option<UniformResourceLocator>,
    /// `dtend`.
    pub dtend: Option<DateTimeEnd>,
    /// `duration`.
    pub duration: Option<Duration>,
    /// `categories`.
    pub categories: Seq<Categories>,
    /// `comment`.
    pub comment: Seq<Comment>,
    /// `contact`.
    pub contact: Seq<Contact>,
    /// `xprop`.
    pub xprop: Seq<Xprop>,
    /// `iana`.
    pub iana: Seq<Iana>,
    /// `available`.
    pub available: Seq<Available>,
}

/// Collects the content lines of a component being read, in the order
/// they come, and builds it at its end.
#[derive(Debug)]
pub struct AvailabilityParseBuilder {
    dtstamp: Option<DateTimeStamp>,
    uid: Option<Uid>,
    busytype: Option<BusyType>,
    class: Option<Classification>,
    created: Option<DateTimeCreated>,
    description: Option<Description>,
    dtstart: Option<DateTimeStart>,
    last_mod: Option<LastModified>,
    location: Option<Location>,
    organizer: Option<Organizer>,
    priority: Option<Priority>,
    seq: Option<Sequence>,
    summary: Option<Summary>,
    url: Option<UniformResourceLocator>,
    dtend: Option<DateTimeEnd>,
    duration: Option<Duration>,
    categories: Vec<Categories>,
    comment: Vec<Comment>,
    contact: Vec<Contact>,
    xprop: Vec<Xprop>,
    iana: Vec<Iana>,
    available: Vec<Available>,
}

/// What reading the property `p` does to the properties `q` collected so
/// far: a property held once may not come twice, one held many times is
/// added, and one the component doesn't hold is refused.
#[verifier::opaque]
pub open spec fn availability_ingest(q: AvailabilityParseParts, p: Property) -> Result<AvailabilityParseParts, PropertyError> {
    match p {
        Property::DateTimeStamp(x) => if q.dtstamp is Some {
            Err(PropertyError::DuplicateProperty("DTSTAMP"))
        } else {
            Ok(AvailabilityParseParts { dtstamp: Some(x), ..q })
        },
        Property::Uid(x) => if q.uid is Some {
            Err(PropertyError::DuplicateProperty("UID"))
        } else {
            Ok(AvailabilityParseParts { uid: Some(x), ..q })
        },
        Property::BusyType(x) => if q.busytype is Some {
            Err(PropertyError::DuplicateProperty("BUSYTYPE"))
        } else {
            Ok(AvailabilityParseParts { busytype: Some(x), ..q })
        },
        Property::Classification(x) => if q.class is Some {
            Err(PropertyError::DuplicateProperty("CLASS"))
        } else {
            Ok(AvailabilityParseParts { class: Some(x), ..q })
        },
        Property::DateTimeCreated(x) => if q.created is Some {
            Err(PropertyError::DuplicateProperty("CREATED"))
        } else {
            Ok(AvailabilityParseParts { created: Some(x), ..q })
        },
        Property::Description(x) => if q.description is Some {
            Err(PropertyError::DuplicateProperty("DESCRIPTION"))
        } else {
            Ok(AvailabilityParseParts { description: Some(x), ..q })
        },
        Property::DateTimeStart(x) => if q.dtstart is Some {
            Err(PropertyError::DuplicateProperty("DTSTART"))
        } else {
            Ok(AvailabilityParseParts { dtstart: Some(x), ..q })
        },
        Property::LastModified(x) => if q.last_mod is Some {
            Err(PropertyError::DuplicateProperty("LAST-MODIFIED"))
        } else {
            Ok(AvailabilityParseParts { last_mod: Some(x), ..q })
        },
        Property::Location(x) => if q.location is Some {
            Err(PropertyError::DuplicateProperty("LOCATION"))
        } else {
            Ok(AvailabilityParseParts { location: Some(x), ..q })
        },
        Property::Organizer(x) => if q.organizer is Some {
            Err(PropertyError::DuplicateProperty("ORGANIZER"))
        } else {
            Ok(AvailabilityParseParts { organizer: Some(x), ..q })
        },
        Property::Priority(x) => if q.priority is Some {
            Err(PropertyError::DuplicateProperty("PRIORITY"))
        } else {
            Ok(AvailabilityParseParts { priority: Some(x), ..q })
        },
        Property::Sequence(x) => if q.seq is Some {
            Err(PropertyError::DuplicateProperty("SEQUENCE"))
        } else {
            Ok(AvailabilityParseParts { seq: Some(x), ..q })
        },
        Property::Summary(x) => if q.summary is Some {
            Err(PropertyError::DuplicateProperty("SUMMARY"))
        } else {
            Ok(AvailabilityParseParts { summary: Some(x), ..q })
        },
        Property::UniformResourceLocator(x) => if q.url is Some {
            Err(PropertyError::DuplicateProperty("URL"))
        } else {
            Ok(AvailabilityParseParts { url: Some(x), ..q })
        },
        Property::DateTimeEnd(x) => if q.dtend is Some {
            Err(PropertyError::DuplicateProperty("DTEND"))
        } else {
            Ok(AvailabilityParseParts { dtend: Some(x), ..q })
        },
        Property::Duration(x) => if q.duration is Some {
            Err(PropertyError::DuplicateProperty("DURATION"))
        } else {
            Ok(AvailabilityParseParts { duration: Some(x), ..q })
        },
        Property::Categories(x) => Ok(AvailabilityParseParts { categories: q.categories.push(x), ..q }),
        Property::Comment(x) => Ok(AvailabilityParseParts { comment: q.comment.push(x), ..q }),
        Property::Contact(x) => Ok(AvailabilityParseParts { contact: q.contact.push(x), ..q }),
        Property::Xprop(x) => Ok(AvailabilityParseParts { xprop: q.xprop.push(x), ..q }),
        Property::Iana(x) => Ok(AvailabilityParseParts { iana: q.iana.push(x), ..q }),
        _ => Err(PropertyError::UnexpectedProperty),
    }
}

/// The properties `props` read one after the other into an empty
/// [`AvailabilityParseBuilder`], or the first refusal.
pub open spec fn availability_fold(props: Seq<Property>) -> Result<AvailabilityParseParts, PropertyError>
    decreases props.len(),
{
    if props.len() == 0 {
        Ok(AvailabilityParseBuilder::empty_parts())
    } else {
        match availability_fold(props.drop_last()) {
            Ok(q) => availability_ingest(q, props.last()),
            Err(e) => Err(e),
        }
    }
}

/// Reading a property doesn't look at, nor touch, the nested components.
pub proof fn lemma_availability_ingest_nested(q: AvailabilityParseParts, p: Property, available: Seq<Available>)
    ensures
        availability_ingest(AvailabilityParseParts { available: available, ..q }, p) == match availability_ingest(q, p) {
            Ok(q2) => Ok(AvailabilityParseParts { available: available, ..q2 }),
            Err(e) => Err(e),
        },
{
    reveal(availability_ingest);
}

/// The properties `q` holds, once those it requires are there.
pub open spec fn availability_parts_of(q: AvailabilityParseParts) -> AvailabilityParts {
    AvailabilityParts {
        dtstamp: q.dtstamp->0,
        uid: q.uid->0,
        busytype: q.busytype,
        class: q.class,
        created: q.created,
        description: q.description,
        dtstart: q.dtstart,
        last_mod: q.last_mod,
        location: q.location,
        organizer: q.organizer,
        priority: q.priority,
        seq: q.seq,
        summary: q.summary,
        url: q.url,
        dtend: q.dtend,
        duration: q.duration,
        categories: q.categories,
        comment: q.comment,
        contact: q.contact,
        xprop: q.xprop,
        iana: q.iana,
        available: q.available,
    }
}

/// The first property `q` requires and lacks, if any.
pub open spec fn availability_missing(q: AvailabilityParseParts) -> Option<&'static str> {
    if q.dtstamp is None {
        Some("DTSTAMP")
    } else if q.uid is None {
        Some("UID")
    } else {
        None
    }
}

impl AvailabilityParseBuilder {
    /// The properties collected.
    pub closed spec fn parts(&self) -> AvailabilityParseParts {
        AvailabilityParseParts {
            dtstamp: self.dtstamp,
            uid: self.uid,
            busytype: self.busytype,
            class: self.class,
            created: self.created,
            description: self.description,
            dtstart: self.dtstart,
            last_mod: self.last_mod,
            location: self.location,
            organizer: self.organizer,
            priority: self.priority,
            seq: self.seq,
            summary: self.summary,
            url: self.url,
            dtend: self.dtend,
            duration: self.duration,
            categories: self.categories@,
            comment: self.comment@,
            contact: self.contact@,
            xprop: self.xprop@,
            iana: self.iana@,
            available: self.available@,
        }
    }

    /// Nothing collected yet.
    pub open spec fn empty_parts() -> AvailabilityParseParts {
        AvailabilityParseParts {
            dtstamp: None,
            uid: None,
            busytype: None,
            class: None,
            created: None,
            description: None,
            dtstart: None,
            last_mod: None,
            location: None,
            organizer: None,
            priority: None,
            seq: None,
            summary: None,
            url: None,
            dtend: None,
            duration: None,
            categories: Seq::empty(),
            comment: Seq::empty(),
            contact: Seq::empty(),
            xprop: Seq::empty(),
            iana: Seq::empty(),
            available: Seq::empty(),
        }
    }

    /// A component with nothing collected yet.
    pub fn new() -> (r: AvailabilityParseBuilder)
        ensures
            r.parts() == AvailabilityParseBuilder::empty_parts(),
    {
        AvailabilityParseBuilder {
            dtstamp: None,
            uid: None,
            busytype: None,
            class: None,
            created: None,
            description: None,
            dtstart: None,
            last_mod: None,
            location: None,
            organizer: None,
            priority: None,
            seq: None,
            summary: None,
            url: None,
            dtend: None,
            duration: None,
            categories: Vec::new(),
            comment: Vec::new(),
            contact: Vec::new(),
            xprop: Vec::new(),
            iana: Vec::new(),
            available: Vec::new(),
        }
    }

    /// Reads one property into the component.
    pub fn ingest(&mut self, p: Property) -> (r: Result<(), PropertyError>)
        ensures
            match availability_ingest(old(self).parts(), p) {
                Ok(q) => r is Ok && final(self).parts() == q,
                Err(e) => r == Err::<(), PropertyError>(e) && final(self).parts() == old(self).parts(),
            },
            final(self).parts().available == old(self).parts().available,
    {
        reveal(availability_ingest);
        match p {
            Property::DateTimeStamp(x) => {
                if self.dtstamp.is_some() {
                    return Err(PropertyError::DuplicateProperty("DTSTAMP"));
                }
                self.dtstamp = Some(x);
                Ok(())
            },
            Property::Uid(x) => {
                if self.uid.is_some() {
                    return Err(PropertyError::DuplicateProperty("UID"));
                }
                self.uid = Some(x);
                Ok(())
            },
            Property::BusyType(x) => {
                if self.busytype.is_some() {
                    return Err(PropertyError::DuplicateProperty("BUSYTYPE"));
                }
                self.busytype = Some(x);
                Ok(())
            },
            Property::Classification(x) => {
                if self.class.is_some() {
                    return Err(PropertyError::DuplicateProperty("CLASS"));
                }
                self.class = Some(x);
                Ok(())
            },
            Property::DateTimeCreated(x) => {
                if self.created.is_some() {
                    return Err(PropertyError::DuplicateProperty("CREATED"));
                }
                self.created = Some(x);
                Ok(())
            },
            Property::Description(x) => {
                if self.description.is_some() {
                    return Err(PropertyError::DuplicateProperty("DESCRIPTION"));
                }
                self.description = Some(x);
                Ok(())
            },
            Property::DateTimeStart(x) => {
                if self.dtstart.is_some() {
                    return Err(PropertyError::DuplicateProperty("DTSTART"));
                }
                self.dtstart = Some(x);
                Ok(())
            },
            Property::LastModified(x) => {
                if self.last_mod.is_some() {
                    return Err(PropertyError::DuplicateProperty("LAST-MODIFIED"));
                }
                self.last_mod = Some(x);
                Ok(())
            },
            Property::Location(x) => {
                if self.location.is_some() {
                    return Err(PropertyError::DuplicateProperty("LOCATION"));
                }
                self.location = Some(x);
                Ok(())
            },
            Property::Organizer(x) => {
                if self.organizer.is_some() {
                    return Err(PropertyError::DuplicateProperty("ORGANIZER"));
                }
                self.organizer = Some(x);
                Ok(())
            },
            Property::Priority(x) => {
                if self.priority.is_some() {
                    return Err(PropertyError::DuplicateProperty("PRIORITY"));
                }
                self.priority = Some(x);
                Ok(())
            },
            Property::Sequence(x) => {
                if self.seq.is_some() {
                    return Err(PropertyError::DuplicateProperty("SEQUENCE"));
                }
                self.seq = Some(x);
                Ok(())
            },
            Property::Summary(x) => {
                if self.summary.is_some() {
                    return Err(PropertyError::DuplicateProperty("SUMMARY"));
                }
                self.summary = Some(x);
                Ok(())
            },
            Property::UniformResourceLocator(x) => {
                if self.url.is_some() {
                    return Err(PropertyError::DuplicateProperty("URL"));
                }
                self.url = Some(x);
                Ok(())
            },
            Property::DateTimeEnd(x) => {
                if self.dtend.is_some() {
                    return Err(PropertyError::DuplicateProperty("DTEND"));
                }
                self.dtend = Some(x);
                Ok(())
            },
            Property::Duration(x) => {
                if self.duration.is_some() {
                    return Err(PropertyError::DuplicateProperty("DURATION"));
                }
                self.duration = Some(x);
                Ok(())
            },
            Property::Categories(x) => {
                self.categories.push(x);
                Ok(())
            },
            Property::Comment(x) => {
                self.comment.push(x);
                Ok(())
            },
            Property::Contact(x) => {
                self.contact.push(x);
                Ok(())
            },
            Property::Xprop(x) => {
                self.xprop.push(x);
                Ok(())
            },
            Property::Iana(x) => {
                self.iana.push(x);
                Ok(())
            },
            _ => Err(PropertyError::UnexpectedProperty),
        }
    }

    /// Adds a nested component read in full.
    pub fn push_available(&mut self, v: Available)
        ensures
            final(self).parts() == (AvailabilityParseParts { available: old(self).parts().available.push(v), ..old(self).parts() }),
    {
        self.available.push(v);
    }

    /// Builds the component: the properties it requires must be there,
    /// and then it is checked as its builder checks it.
    pub fn finish(self) -> (r: Result<Availability, ComponentError>)
        ensures
            availability_missing(self.parts()) matches Some(n) ==> r == Err::<Availability, ComponentError>(ComponentError::MissingField(n)),
            availability_missing(self.parts()) is None ==> (r is Ok <==> availability_check(availability_parts_of(self.parts())) is Ok),
            availability_missing(self.parts()) is None ==> (r matches Err(e) ==> availability_check(availability_parts_of(self.parts())) == Err::<(), ComponentError>(e)),
            r matches Ok(c) ==> c.parts() == availability_parts_of(self.parts()),
    {
        let AvailabilityParseBuilder { dtstamp, uid, busytype, class, created, description, dtstart, last_mod, location, organizer, priority, seq, summary, url, dtend, duration, categories, comment, contact, xprop, iana, available } = self;
        let dtstamp = match dtstamp {
            Some(x) => x,
            None => {
                return Err(ComponentError::MissingField("DTSTAMP"));
            },
        };
        let uid = match uid {
            Some(x) => x,
            None => {
                return Err(ComponentError::MissingField("UID"));
            },
        };
        let b = AvailabilityBuilder::<Unset> {
            dtstamp,
            uid,
            busytype,
            class,
            created,
            description,
            dtstart,
            last_mod,
            location,
            organizer,
            priority,
            seq,
            summary,
            url,
            dtend,
            duration,
            categories,
            comment,
            contact,
            xprop,
            iana,
            available,
            _state: PhantomData,
        };
        b.build()
    }
}

/// The properties of a [`AvailableParseBuilder`], as values.
pub ghost struct AvailableParseParts {
    /// `dtstamp`.
    pub dtstamp: Option<DateTimeStamp>,
    /// `dtstart`.
    pub dtstart: Option<DateTimeStart>,
    /// `uid`.
    pub uid: Option<Uid>,
    /// `created`.
    pub created: Option<DateTimeCreated>,
    /// `description`.
    pub description: Option<Description>,
    /// `last_mod`.
    pub last_mod: Option<LastModified>,
    /// `location`.
    pub location: Option<Location>,
    /// `recurid`.
    pub recurid: Option<RecurrenceId>,
    /// `rrule`.
    pub rrule: Option<RRule>,
    /// `summary`.
    pub summary: Option<Summary>,
    /// `dtend`.
    pub dtend: Option<DateTimeEnd>,
    /// `duration`.
    pub duration: Option<Duration>,
    /// `categories`.
    pub categories: Seq<Categories>,
    /// `comment`.
    pub comment: Seq<Comment>,
    /// `contact`.
    pub contact: Seq<Contact>,
    /// `exdate`.
    pub exdate: Seq<ExceptionDateTimes>,
    /// `rdate`.
    pub rdate: Seq<RecurrenceDateTimes>,
    /// `xprop`.
    pub xprop: Seq<Xprop>,
    /// `iana`.
    pub iana: Seq<Iana>,
}

/// Collects the content lines of a component being read, in the order
/// they come, and builds it at its end.
#[derive(Debug)]
pub struct AvailableParseBuilder {
    dtstamp: Option<DateTimeStamp>,
    dtstart: Option<DateTimeStart>,
    uid: Option<Uid>,
    created: Option<DateTimeCreated>,
    description: Option<Description>,
    last_mod: Option<LastModified>,
    location: Option<Location>,
    recurid: Option<RecurrenceId>,
    rrule: Option<RRule>,
    summary: Option<Summary>,
    dtend: Option<DateTimeEnd>,
    duration: Option<Duration>,
    categories: Vec<Categories>,
    comment: Vec<Comment>,
    contact: Vec<Contact>,
    exdate: Vec<ExceptionDateTimes>,
    rdate: Vec<RecurrenceDateTimes>,
    xprop: Vec<Xprop>,
    iana: Vec<Iana>,
}

/// What reading the property `p` does to the properties `q` collected so
/// far: a property held once may not come twice, one held many times is
/// added, and one the component doesn't hold is refused.
#[verifier::opaque]
pub open spec fn available_ingest(q: AvailableParseParts, p: Property) -> Result<AvailableParseParts, PropertyError> {
    match p {
        Property::DateTimeStamp(x) => if q.dtstamp is Some {
            Err(PropertyError::DuplicateProperty("DTSTAMP"))
        } else {
            Ok(AvailableParseParts { dtstamp: Some(x), ..q })
        },
        Property::DateTimeStart(x) => if q.dtstart is Some {
            Err(PropertyError::DuplicateProperty("DTSTART"))
        } else {
            Ok(AvailableParseParts { dtstart: Some(x), ..q })
        },
        Property::Uid(x) => if q.uid is Some {
            Err(PropertyError::DuplicateProperty("UID"))
        } else {
            Ok(AvailableParseParts { uid: Some(x), ..q })
        },
        Property::DateTimeCreated(x) => if q.created is Some {
            Err(PropertyError::DuplicateProperty("CREATED"))
        } else {
            Ok(AvailableParseParts { created: Some(x), ..q })
        },
        Property::Description(x) => if q.description is Some {
            Err(PropertyError::DuplicateProperty("DESCRIPTION"))
        } else {
            Ok(AvailableParseParts { description: Some(x), ..q })
        },
        Property::LastModified(x) => if q.last_mod is Some {
            Err(PropertyError::DuplicateProperty("LAST-MODIFIED"))
        } else {
            Ok(AvailableParseParts { last_mod: Some(x), ..q })
        },
        Property::Location(x) => if q.location is Some {
            Err(PropertyError::DuplicateProperty("LOCATION"))
        } else {
            Ok(AvailableParseParts { location: Some(x), ..q })
        },
        Property::RecurrenceId(x) => if q.recurid is Some {
            Err(PropertyError::DuplicateProperty("RECURRENCE-ID"))
        } else {
            Ok(AvailableParseParts { recurid: Some(x), ..q })
        },
        Property::RRule(x) => if q.rrule is Some {
            Err(PropertyError::DuplicateProperty("RRULE"))
        } else {
            Ok(AvailableParseParts { rrule: Some(x), ..q })
        },
        Property::Summary(x) => if q.summary is Some {
            Err(PropertyError::DuplicateProperty("SUMMARY"))
        } else {
            Ok(AvailableParseParts { summary: Some(x), ..q })
        },
        Property::DateTimeEnd(x) => if q.dtend is Some {
            Err(PropertyError::DuplicateProperty("DTEND"))
        } else {
            Ok(AvailableParseParts { dtend: Some(x), ..q })
        },
        Property::Duration(x) => if q.duration is Some {
            Err(PropertyError::DuplicateProperty("DURATION"))
        } else {
            Ok(AvailableParseParts { duration: Some(x), ..q })
        },
        Property::Categories(x) => Ok(AvailableParseParts { categories: q.categories.push(x), ..q }),
        Property::Comment(x) => Ok(AvailableParseParts { comment: q.comment.push(x), ..q }),
        Property::Contact(x) => Ok(AvailableParseParts { contact: q.contact.push(x), ..q }),
        Property::ExceptionDateTimes(x) => Ok(AvailableParseParts { exdate: q.exdate.push(x), ..q }),
        Property::RecurrenceDateTimes(x) => Ok(AvailableParseParts { rdate: q.rdate.push(x), ..q }),
        Property::Xprop(x) => Ok(AvailableParseParts { xprop: q.xprop.push(x), ..q }),
        Property::Iana(x) => Ok(AvailableParseParts { iana: q.iana.push(x), ..q }),
        _ => Err(PropertyError::UnexpectedProperty),
    }
}

/// The properties `props` read one after the other into an empty
/// [`AvailableParseBuilder`], or the first refusal.
pub open spec fn available_fold(props: Seq<Property>) -> Result<AvailableParseParts, PropertyError>
    decreases props.len(),
{
    if props.len() == 0 {
        Ok(AvailableParseBuilder::empty_parts())
    } else {
        match available_fold(props.drop_last()) {
            Ok(q) => available_ingest(q, props.last()),
            Err(e) => Err(e),
        }
    }
}

/// The properties `q` holds, once those it requires are there.
pub open spec fn available_parts_of(q: AvailableParseParts) -> AvailableParts {
    AvailableParts {
        dtstamp: q.dtstamp,
        dtstart: q.dtstart->0,
        uid: q.uid->0,
        created: q.created,
        description: q.description,
        last_mod: q.last_mod,
        location: q.location,
        recurid: q.recurid,
        rrule: q.rrule,
        summary: q.summary,
        dtend: q.dtend,
        duration: q.duration,
        categories: q.categories,
        comment: q.comment,
        contact: q.contact,
        exdate: q.exdate,
        rdate: q.rdate,
        xprop: q.xprop,
        iana: q.iana,
    }
}

/// The first property `q` requires and lacks, if any.
pub open spec fn available_missing(q: AvailableParseParts) -> Option<&'static str> {
    if q.dtstart is None {
        Some("DTSTART")
    } else if q.uid is None {
        Some("UID")
    } else {
        None
    }
}

impl AvailableParseBuilder {
    /// The properties collected.
    pub closed spec fn parts(&self) -> AvailableParseParts {
        AvailableParseParts {
            dtstamp: self.dtstamp,
            dtstart: self.dtstart,
            uid: self.uid,
            created: self.created,
            description: self.description,
            last_mod: self.last_mod,
            location: self.location,
            recurid: self.recurid,
            rrule: self.rrule,
            summary: self.summary,
            dtend: self.dtend,
            duration: self.duration,
            categories: self.categories@,
            comment: self.comment@,
            contact: self.contact@,
            exdate: self.exdate@,
            rdate: self.rdate@,
            xprop: self.xprop@,
            iana: self.iana@,
        }
    }

    /// Nothing collected yet.
    pub open spec fn empty_parts() -> AvailableParseParts {
        AvailableParseParts {
            dtstamp: None,
            dtstart: None,
            uid: None,
            created: None,
            description: None,
            last_mod: None,
            location: None,
            recurid: None,
            rrule: None,
            summary: None,
            dtend: None,
            duration: None,
            categories: Seq::empty(),
            comment: Seq::empty(),
            contact: Seq::empty(),
            exdate: Seq::empty(),
            rdate: Seq::empty(),
            xprop: Seq::empty(),
            iana: Seq::empty(),
        }
    }

    /// A component with nothing collected yet.
    pub fn new() -> (r: AvailableParseBuilder)
        ensures
            r.parts() == AvailableParseBuilder::empty_parts(),
    {
        AvailableParseBuilder {
            dtstamp: None,
            dtstart: None,
            uid: None,
            created: None,
            description: None,
            last_mod: None,
            location: None,
            recurid: None,
            rrule: None,
            summary: None,
            dtend: None,
            duration: None,
            categories: Vec::new(),
            comment: Vec::new(),
            contact: Vec::new(),
            exdate: Vec::new(),
            rdate: Vec::new(),
            xprop: Vec::new(),
            iana: Vec::new(),
        }
    }

    /// Reads one property into the component.
    pub fn ingest(&mut self, p: Property) -> (r: Result<(), PropertyError>)
        ensures
            match available_ingest(old(self).parts(), p) {
                Ok(q) => r is Ok && final(self).parts() == q,
                Err(e) => r == Err::<(), PropertyError>(e) && final(self).parts() == old(self).parts(),
            },
    {
        reveal(available_ingest);
        match p {
            Property::DateTimeStamp(x) => {
                if self.dtstamp.is_some() {
                    return Err(PropertyError::DuplicateProperty("DTSTAMP"));
                }
                self.dtstamp = Some(x);
                Ok(())
            },
            Property::DateTimeStart(x) => {
                if self.dtstart.is_some() {
                    return Err(PropertyError::DuplicateProperty("DTSTART"));
                }
                self.dtstart = Some(x);
                Ok(())
            },
            Property::Uid(x) => {
                if self.uid.is_some() {
                    return Err(PropertyError::DuplicateProperty("UID"));
                }
                self.uid = Some(x);
                Ok(())
            },
            Property::DateTimeCreated(x) => {
                if self.created.is_some() {
                    return Err(PropertyError::DuplicateProperty("CREATED"));
                }
                self.created = Some(x);
                Ok(())
            },
            Property::Description(x) => {
                if self.description.is_some() {
                    return Err(PropertyError::DuplicateProperty("DESCRIPTION"));
                }
                self.description = Some(x);
                Ok(())
            },
            Property::LastModified(x) => {
                if self.last_mod.is_some() {
                    return Err(PropertyError::DuplicateProperty("LAST-MODIFIED"));
                }
                self.last_mod = Some(x);
                Ok(())
            },
            Property::Location(x) => {
                if self.location.is_some() {
                    return Err(PropertyError::DuplicateProperty("LOCATION"));
                }
                self.location = Some(x);
                Ok(())
            },
            Property::RecurrenceId(x) => {
                if self.recurid.is_some() {
                    return Err(PropertyError::DuplicateProperty("RECURRENCE-ID"));
                }
                self.recurid = Some(x);
                Ok(())
            },
            Property::RRule(x) => {
                if self.rrule.is_some() {
                    return Err(PropertyError::DuplicateProperty("RRULE"));
                }
                self.rrule = Some(x);
                Ok(())
            },
            Property::Summary(x) => {
                if self.summary.is_some() {
                    return Err(PropertyError::DuplicateProperty("SUMMARY"));
                }
                self.summary = Some(x);
                Ok(())
            },
            Property::DateTimeEnd(x) => {
                if self.dtend.is_some() {
                    return Err(PropertyError::DuplicateProperty("DTEND"));
                }
                self.dtend = Some(x);
                Ok(())
            },
            Property::Duration(x) => {
                if self.duration.is_some() {
                    return Err(PropertyError::DuplicateProperty("DURATION"));
                }
                self.duration = Some(x);
                Ok(())
            },
            Property::Categories(x) => {
                self.categories.push(x);
                Ok(())
            },
            Property::Comment(x) => {
                self.comment.push(x);
                Ok(())
            },
            Property::Contact(x) => {
                self.contact.push(x);
                Ok(())
            },
            Property::ExceptionDateTimes(x) => {
                self.exdate.push(x);
                Ok(())
            },
            Property::RecurrenceDateTimes(x) => {
                self.rdate.push(x);
                Ok(())
            },
            Property::Xprop(x) => {
                self.xprop.push(x);
                Ok(())
            },
            Property::Iana(x) => {
                self.iana.push(x);
                Ok(())
            },
            _ => Err(PropertyError::UnexpectedProperty),
        }
    }

    /// Builds the component: the properties it requires must be there,
    /// and then it is checked as its builder checks it.
    pub fn finish(self) -> (r: Result<Available, ComponentError>)
        ensures
            available_missing(self.parts()) matches Some(n) ==> r == Err::<Available, ComponentError>(ComponentError::MissingField(n)),
            available_missing(self.parts()) is None ==> (r is Ok <==> available_check(available_parts_of(self.parts())) is Ok),
            available_missing(self.parts()) is None ==> (r matches Err(e) ==> available_check(available_parts_of(self.parts())) == Err::<(), ComponentError>(e)),
            r matches Ok(c) ==> c.parts() == available_parts_of(self.parts()),
    {
        let AvailableParseBuilder { dtstamp, dtstart, uid, created, description, last_mod, location, recurid, rrule, summary, dtend, duration, categories, comment, contact, exdate, rdate, xprop, iana } = self;
        let dtstart = match dtstart {
            Some(x) => x,
            None => {
                return Err(ComponentError::MissingField("DTSTART"));
            },
        };
        let uid = match uid {
            Some(x) => x,
            None => {
                return Err(ComponentError::MissingField("UID"));
            },
        };
        let b = AvailableBuilder::<AvailableUnset> {
            dtstamp,
            dtstart,
            uid,
            created,
            description,
            last_mod,
            location,
            recurid,
            rrule,
            summary,
            dtend,
            duration,
            categories,
            comment,
            contact,
            exdate,
            rdate,
            xprop,
            iana,
            _state: PhantomData,
        };
        b.build()
    }
}

} // verus!
