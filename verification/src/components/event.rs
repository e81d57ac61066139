//! Events (RFC 5545 §3.6.1).

use vstd::prelude::*;
use vstd::utf8::valid_utf8;
use std::marker::PhantomData;
use crate::components::{
    blocks, delimiter, first_err, lemma_blocks_valid, lemma_delimiter_valid, lemma_line_valid, lemma_lines_valid,
    lemma_opt_line_valid, line, lines, opt_line, start_checks, check_start, write_blocks, write_delimiter,
    write_line, write_lines, write_opt_line,
    ComponentError,
};
use crate::properties::component::change::{DateTimeCreated, DateTimeStamp, LastModified, Sequence};
use crate::properties::component::datetime::{DateTimeEnd, DateTimeStart, Duration, TimeTransparency};
use crate::properties::component::descriptive::{Attachment, Categories, Classification, Color, Comment, Conference, Description, Geo, Image, Location, Priority, Resources, Status, Summary};
use crate::properties::component::misc::{RequestStatus};
use crate::properties::component::recurrence::{ExceptionDateTimes, RRule, RecurrenceDateTimes};
use crate::properties::component::relationship::{Attendee, Contact, Organizer, RecurrenceId, RelatedTo, Uid, UniformResourceLocator};
use crate::properties::{Iana, Xprop};
use crate::components::alarm::Alarm;
use crate::properties::component::datetime::value_type_check;
use crate::values::datetime::DateOrDatetime;
use crate::values::Ical;
use crate::components::{due_value, end_value};


use crate::ast::property::Property;
use crate::properties::PropertyError;
verus! {

/// The properties of a [`Event`] or of a [`EventBuilder`].
pub struct EventParts {
    /// `dtstamp`.
    pub dtstamp: DateTimeStamp,
    /// `uid`.
    pub uid: Uid,
    /// `dtstart`.
    pub dtstart: Option<DateTimeStart>,
    /// `class`.
    pub class: Option<Classification>,
    /// `created`.
    pub created: Option<DateTimeCreated>,
    /// `description`.
    pub description: Option<Description>,
    /// `geo`.
    pub geo: Option<Geo>,
    /// `last_mod`.
    pub last_mod: Option<LastModified>,
    /// `location`.
    pub location: Option<Location>,
    /// `organizer`.
    pub organizer: Option<Organizer>,
    /// `priority`.
    pub priority: Option<Priority>,
    /// `seq`.
    pub seq: Option<Sequence>,
    /// `status`.
    pub status: Option<Status>,
    /// `summary`.
    pub summary: Option<Summary>,
    /// `transp`.
    pub transp: Option<TimeTransparency>,
    /// `url`.
    pub url: Option<UniformResourceLocator>,
    /// `recurid`.
    pub recurid: Option<RecurrenceId>,
    /// `rrule`.
    pub rrule: Option<RRule>,
    /// `dtend`.
    pub dtend: Option<DateTimeEnd>,
    /// `duration`.
    pub duration: Option<Duration>,
    /// `attach`.
    pub attach: Seq<Attachment>,
    /// `attendee`.
    pub attendee: Seq<Attendee>,
    /// `categories`.
    pub categories: Seq<Categories>,
    /// `comment`.
    pub comment: Seq<Comment>,
    /// `contact`.
    pub contact: Seq<Contact>,
    /// `exdate`.
    pub exdate: Seq<ExceptionDateTimes>,
    /// `rstatus`.
    pub rstatus: Seq<RequestStatus>,
    /// `related`.
    pub related: Seq<RelatedTo>,
    /// `resources`.
    pub resources: Seq<Resources>,
    /// `rdate`.
    pub rdate: Seq<RecurrenceDateTimes>,
    /// `color`.
    pub color: Option<Color>,
    /// `image`.
    pub image: Seq<Image>,
    /// `conference`.
    pub conference: Seq<Conference>,
    /// `xprop`.
    pub xprop: Seq<Xprop>,
    /// `iana`.
    pub iana: Seq<Iana>,
    /// `alarms`.
    pub alarms: Seq<Alarm>,
}

/// A `VEVENT` component (RFC 5545 §3.6.1): a scheduled amount of time on a
/// calendar.
#[derive(Debug)]
pub struct Event {
    dtstamp: DateTimeStamp,
    uid: Uid,
    dtstart: Option<DateTimeStart>,
    class: Option<Classification>,
    created: Option<DateTimeCreated>,
    description: Option<Description>,
    geo: Option<Geo>,
    last_mod: Option<LastModified>,
    location: Option<Location>,
    organizer: Option<Organizer>,
    priority: Option<Priority>,
    seq: Option<Sequence>,
    status: Option<Status>,
    summary: Option<Summary>,
    transp: Option<TimeTransparency>,
    url: Option<UniformResourceLocator>,
    recurid: Option<RecurrenceId>,
    rrule: Option<RRule>,
    dtend: Option<DateTimeEnd>,
    duration: Option<Duration>,
    attach: Vec<Attachment>,
    attendee: Vec<Attendee>,
    categories: Vec<Categories>,
    comment: Vec<Comment>,
    contact: Vec<Contact>,
    exdate: Vec<ExceptionDateTimes>,
    rstatus: Vec<RequestStatus>,
    related: Vec<RelatedTo>,
    resources: Vec<Resources>,
    rdate: Vec<RecurrenceDateTimes>,
    color: Option<Color>,
    image: Vec<Image>,
    conference: Vec<Conference>,
    xprop: Vec<Xprop>,
    iana: Vec<Iana>,
    alarms: Vec<Alarm>,
}

/// Lines 0 of a written [`Event`].
pub open spec fn event_lines_0(p: EventParts) -> Seq<u8> {
    line(p.dtstamp)
        + line(p.uid)
        + opt_line(p.dtstart)
        + opt_line(p.class)
        + opt_line(p.created)
        + opt_line(p.description)
        + opt_line(p.geo)
        + opt_line(p.last_mod)
}

/// Lines 1 of a written [`Event`].
pub open spec fn event_lines_1(p: EventParts) -> Seq<u8> {
    opt_line(p.location)
        + opt_line(p.organizer)
        + opt_line(p.priority)
        + opt_line(p.seq)
        + opt_line(p.status)
        + opt_line(p.summary)
        + opt_line(p.transp)
        + opt_line(p.url)
}

/// Lines 2 of a written [`Event`].
pub open spec fn event_lines_2(p: EventParts) -> Seq<u8> {
    opt_line(p.recurid)
        + opt_line(p.rrule)
        + opt_line(p.dtend)
        + opt_line(p.duration)
        + lines(p.attach)
        + lines(p.attendee)
        + lines(p.categories)
        + lines(p.comment)
}

/// Lines 3 of a written [`Event`].
pub open spec fn event_lines_3(p: EventParts) -> Seq<u8> {
    lines(p.contact)
        + lines(p.exdate)
        + lines(p.rstatus)
        + lines(p.related)
        + lines(p.resources)
        + lines(p.rdate)
        + opt_line(p.color)
        + lines(p.image)
}

/// Lines 4 of a written [`Event`].
pub open spec fn event_lines_4(p: EventParts) -> Seq<u8> {
    lines(p.conference)
        + lines(p.xprop)
        + lines(p.iana)
        + blocks(p.alarms)
}

/// The lines of a written [`Event`], between its delimiters.
#[verifier::opaque]
pub open spec fn event_body(p: EventParts) -> Seq<u8> {
    event_lines_0(p) + event_lines_1(p) + event_lines_2(p) + event_lines_3(p) + event_lines_4(p)
}

proof fn lemma_event_lines_0_valid(p: EventParts)
    ensures
        valid_utf8(event_lines_0(p)),
{
    lemma_line_valid(p.dtstamp);
    lemma_line_valid(p.uid);
    lemma_opt_line_valid(p.dtstart);
    lemma_opt_line_valid(p.class);
    lemma_opt_line_valid(p.created);
    lemma_opt_line_valid(p.description);
    lemma_opt_line_valid(p.geo);
    lemma_opt_line_valid(p.last_mod);
    vstd::utf8::valid_utf8_concat(line(p.dtstamp), line(p.uid));
    vstd::utf8::valid_utf8_concat(line(p.dtstamp) + line(p.uid), opt_line(p.dtstart));
    vstd::utf8::valid_utf8_concat(line(p.dtstamp) + line(p.uid) + opt_line(p.dtstart), opt_line(p.class));
    vstd::utf8::valid_utf8_concat(line(p.dtstamp) + line(p.uid) + opt_line(p.dtstart) + opt_line(p.class), opt_line(p.created));
    vstd::utf8::valid_utf8_concat(line(p.dtstamp) + line(p.uid) + opt_line(p.dtstart) + opt_line(p.class) + opt_line(p.created), opt_line(p.description));
    vstd::utf8::valid_utf8_concat(line(p.dtstamp) + line(p.uid) + opt_line(p.dtstart) + opt_line(p.class) + opt_line(p.created) + opt_line(p.description), opt_line(p.geo));
    vstd::utf8::valid_utf8_concat(line(p.dtstamp) + line(p.uid) + opt_line(p.dtstart) + opt_line(p.class) + opt_line(p.created) + opt_line(p.description) + opt_line(p.geo), opt_line(p.last_mod));
}

proof fn lemma_event_lines_1_valid(p: EventParts)
    ensures
        valid_utf8(event_lines_1(p)),
{
    lemma_opt_line_valid(p.location);
    lemma_opt_line_valid(p.organizer);
    lemma_opt_line_valid(p.priority);
    lemma_opt_line_valid(p.seq);
    lemma_opt_line_valid(p.status);
    lemma_opt_line_valid(p.summary);
    lemma_opt_line_valid(p.transp);
    lemma_opt_line_valid(p.url);
    vstd::utf8::valid_utf8_concat(opt_line(p.location), opt_line(p.organizer));
    vstd::utf8::valid_utf8_concat(opt_line(p.location) + opt_line(p.organizer), opt_line(p.priority));
    vstd::utf8::valid_utf8_concat(opt_line(p.location) + opt_line(p.organizer) + opt_line(p.priority), opt_line(p.seq));
    vstd::utf8::valid_utf8_concat(opt_line(p.location) + opt_line(p.organizer) + opt_line(p.priority) + opt_line(p.seq), opt_line(p.status));
    vstd::utf8::valid_utf8_concat(opt_line(p.location) + opt_line(p.organizer) + opt_line(p.priority) + opt_line(p.seq) + opt_line(p.status), opt_line(p.summary));
    vstd::utf8::valid_utf8_concat(opt_line(p.location) + opt_line(p.organizer) + opt_line(p.priority) + opt_line(p.seq) + opt_line(p.status) + opt_line(p.summary), opt_line(p.transp));
    vstd::utf8::valid_utf8_concat(opt_line(p.location) + opt_line(p.organizer) + opt_line(p.priority) + opt_line(p.seq) + opt_line(p.status) + opt_line(p.summary) + opt_line(p.transp), opt_line(p.url));
}

proof fn lemma_event_lines_2_valid(p: EventParts)
    ensures
        valid_utf8(event_lines_2(p)),
{
    lemma_opt_line_valid(p.recurid);
    lemma_opt_line_valid(p.rrule);
    lemma_opt_line_valid(p.dtend);
    lemma_opt_line_valid(p.duration);
    lemma_lines_valid(p.attach);
    lemma_lines_valid(p.attendee);
    lemma_lines_valid(p.categories);
    lemma_lines_valid(p.comment);
    vstd::utf8::valid_utf8_concat(opt_line(p.recurid), opt_line(p.rrule));
    vstd::utf8::valid_utf8_concat(opt_line(p.recurid) + opt_line(p.rrule), opt_line(p.dtend));
    vstd::utf8::valid_utf8_concat(opt_line(p.recurid) + opt_line(p.rrule) + opt_line(p.dtend), opt_line(p.duration));
    vstd::utf8::valid_utf8_concat(opt_line(p.recurid) + opt_line(p.rrule) + opt_line(p.dtend) + opt_line(p.duration), lines(p.attach));
    vstd::utf8::valid_utf8_concat(opt_line(p.recurid) + opt_line(p.rrule) + opt_line(p.dtend) + opt_line(p.duration) + lines(p.attach), lines(p.attendee));
    vstd::utf8::valid_utf8_concat(opt_line(p.recurid) + opt_line(p.rrule) + opt_line(p.dtend) + opt_line(p.duration) + lines(p.attach) + lines(p.attendee), lines(p.categories));
    vstd::utf8::valid_utf8_concat(opt_line(p.recurid) + opt_line(p.rrule) + opt_line(p.dtend) + opt_line(p.duration) + lines(p.attach) + lines(p.attendee) + lines(p.categories), lines(p.comment));
}

proof fn lemma_event_lines_3_valid(p: EventParts)
    ensures
        valid_utf8(event_lines_3(p)),
{
    lemma_lines_valid(p.contact);
    lemma_lines_valid(p.exdate);
    lemma_lines_valid(p.rstatus);
    lemma_lines_valid(p.related);
    lemma_lines_valid(p.resources);
    lemma_lines_valid(p.rdate);
    lemma_opt_line_valid(p.color);
    lemma_lines_valid(p.image);
    vstd::utf8::valid_utf8_concat(lines(p.contact), lines(p.exdate));
    vstd::utf8::valid_utf8_concat(lines(p.contact) + lines(p.exdate), lines(p.rstatus));
    vstd::utf8::valid_utf8_concat(lines(p.contact) + lines(p.exdate) + lines(p.rstatus), lines(p.related));
    vstd::utf8::valid_utf8_concat(lines(p.contact) + lines(p.exdate) + lines(p.rstatus) + lines(p.related), lines(p.resources));
    vstd::utf8::valid_utf8_concat(lines(p.contact) + lines(p.exdate) + lines(p.rstatus) + lines(p.related) + lines(p.resources), lines(p.rdate));
    vstd::utf8::valid_utf8_concat(lines(p.contact) + lines(p.exdate) + lines(p.rstatus) + lines(p.related) + lines(p.resources) + lines(p.rdate), opt_line(p.color));
    vstd::utf8::valid_utf8_concat(lines(p.contact) + lines(p.exdate) + lines(p.rstatus) + lines(p.related) + lines(p.resources) + lines(p.rdate) + opt_line(p.color), lines(p.image));
}

proof fn lemma_event_lines_4_valid(p: EventParts)
    ensures
        valid_utf8(event_lines_4(p)),
{
    lemma_lines_valid(p.conference);
    lemma_lines_valid(p.xprop);
    lemma_lines_valid(p.iana);
    lemma_blocks_valid(p.alarms);
    vstd::utf8::valid_utf8_concat(lines(p.conference), lines(p.xprop));
    vstd::utf8::valid_utf8_concat(lines(p.conference) + lines(p.xprop), lines(p.iana));
    vstd::utf8::valid_utf8_concat(lines(p.conference) + lines(p.xprop) + lines(p.iana), blocks(p.alarms));
}

proof fn lemma_event_body_valid(p: EventParts)
    ensures
        valid_utf8(event_body(p)),
{
    reveal(event_body);
    lemma_event_lines_0_valid(p);
    lemma_event_lines_1_valid(p);
    lemma_event_lines_2_valid(p);
    lemma_event_lines_3_valid(p);
    lemma_event_lines_4_valid(p);
    vstd::utf8::valid_utf8_concat(event_lines_0(p), event_lines_1(p));
    vstd::utf8::valid_utf8_concat(event_lines_0(p) + event_lines_1(p), event_lines_2(p));
    vstd::utf8::valid_utf8_concat(event_lines_0(p) + event_lines_1(p) + event_lines_2(p), event_lines_3(p));
    vstd::utf8::valid_utf8_concat(event_lines_0(p) + event_lines_1(p) + event_lines_2(p) + event_lines_3(p), event_lines_4(p));
}

impl Event {
    /// The properties held.
    pub closed spec fn parts(&self) -> EventParts {
        EventParts {
            dtstamp: self.dtstamp,
            uid: self.uid,
            dtstart: self.dtstart,
            class: self.class,
            created: self.created,
            description: self.description,
            geo: self.geo,
            last_mod: self.last_mod,
            location: self.location,
            organizer: self.organizer,
            priority: self.priority,
            seq: self.seq,
            status: self.status,
            summary: self.summary,
            transp: self.transp,
            url: self.url,
            recurid: self.recurid,
            rrule: self.rrule,
            dtend: self.dtend,
            duration: self.duration,
            attach: self.attach@,
            attendee: self.attendee@,
            categories: self.categories@,
            comment: self.comment@,
            contact: self.contact@,
            exdate: self.exdate@,
            rstatus: self.rstatus@,
            related: self.related@,
            resources: self.resources@,
            rdate: self.rdate@,
            color: self.color,
            image: self.image@,
            conference: self.conference@,
            xprop: self.xprop@,
            iana: self.iana@,
            alarms: self.alarms@,
        }
    }

    /// `dtstamp`.
    pub fn dtstamp(&self) -> (r: &DateTimeStamp)
        ensures
            *r == self.parts().dtstamp,
    {
        &self.dtstamp
    }

    /// `uid`.
    pub fn uid(&self) -> (r: &Uid)
        ensures
            *r == self.parts().uid,
    {
        &self.uid
    }

    /// `dtstart`, if set.
    pub fn dtstart(&self) -> (r: Option<&DateTimeStart>)
        ensures
            match r {
                Some(x) => self.parts().dtstart == Some(*x),
                None => self.parts().dtstart is None,
            },
    {
        self.dtstart.as_ref()
    }

    /// `class`, if set.
    pub fn class(&self) -> (r: Option<&Classification>)
        ensures
            match r {
                Some(x) => self.parts().class == Some(*x),
                None => self.parts().class is None,
            },
    {
        self.class.as_ref()
    }

    /// `created`, if set.
    pub fn created(&self) -> (r: Option<&DateTimeCreated>)
        ensures
            match r {
                Some(x) => self.parts().created == Some(*x),
                None => self.parts().created is None,
            },
    {
        self.created.as_ref()
    }

    /// `description`, if set.
    pub fn description(&self) -> (r: Option<&Description>)
        ensures
            match r {
                Some(x) => self.parts().description == Some(*x),
                None => self.parts().description is None,
            },
    {
        self.description.as_ref()
    }

    /// `geo`, if set.
    pub fn geo(&self) -> (r: Option<&Geo>)
        ensures
            match r {
                Some(x) => self.parts().geo == Some(*x),
                None => self.parts().geo is None,
            },
    {
        self.geo.as_ref()
    }

    /// `last_mod`, if set.
    pub fn last_mod(&self) -> (r: Option<&LastModified>)
        ensures
            match r {
                Some(x) => self.parts().last_mod == Some(*x),
                None => self.parts().last_mod is None,
            },
    {
        self.last_mod.as_ref()
    }

    /// `location`, if set.
    pub fn location(&self) -> (r: Option<&Location>)
        ensures
            match r {
                Some(x) => self.parts().location == Some(*x),
                None => self.parts().location is None,
            },
    {
        self.location.as_ref()
    }

    /// `organizer`, if set.
    pub fn organizer(&self) -> (r: Option<&Organizer>)
        ensures
            match r {
                Some(x) => self.parts().organizer == Some(*x),
                None => self.parts().organizer is None,
            },
    {
        self.organizer.as_ref()
    }

    /// `priority`, if set.
    pub fn priority(&self) -> (r: Option<&Priority>)
        ensures
            match r {
                Some(x) => self.parts().priority == Some(*x),
                None => self.parts().priority is None,
            },
    {
        self.priority.as_ref()
    }

    /// `seq`, if set.
    pub fn seq(&self) -> (r: Option<&Sequence>)
        ensures
            match r {
                Some(x) => self.parts().seq == Some(*x),
                None => self.parts().seq is None,
            },
    {
        self.seq.as_ref()
    }

    /// `status`, if set.
    pub fn status(&self) -> (r: Option<&Status>)
        ensures
            match r {
                Some(x) => self.parts().status == Some(*x),
                None => self.parts().status is None,
            },
    {
        self.status.as_ref()
    }

    /// `summary`, if set.
    pub fn summary(&self) -> (r: Option<&Summary>)
        ensures
            match r {
                Some(x) => self.parts().summary == Some(*x),
                None => self.parts().summary is None,
            },
    {
        self.summary.as_ref()
    }

    /// `transp`, if set.
    pub fn transp(&self) -> (r: Option<&TimeTransparency>)
        ensures
            match r {
                Some(x) => self.parts().transp == Some(*x),
                None => self.parts().transp is None,
            },
    {
        self.transp.as_ref()
    }

    /// `url`, if set.
    pub fn url(&self) -> (r: Option<&UniformResourceLocator>)
        ensures
            match r {
                Some(x) => self.parts().url == Some(*x),
                None => self.parts().url is None,
            },
    {
        self.url.as_ref()
    }

    /// `recurid`, if set.
    pub fn recurid(&self) -> (r: Option<&RecurrenceId>)
        ensures
            match r {
                Some(x) => self.parts().recurid == Some(*x),
                None => self.parts().recurid is None,
            },
    {
        self.recurid.as_ref()
    }

    /// `rrule`, if set.
    pub fn rrule(&self) -> (r: Option<&RRule>)
        ensures
            match r {
                Some(x) => self.parts().rrule == Some(*x),
                None => self.parts().rrule is None,
            },
    {
        self.rrule.as_ref()
    }

    /// `dtend`, if set.
    pub fn dtend(&self) -> (r: Option<&DateTimeEnd>)
        ensures
            match r {
                Some(x) => self.parts().dtend == Some(*x),
                None => self.parts().dtend is None,
            },
    {
        self.dtend.as_ref()
    }

    /// `duration`, if set.
    pub fn duration(&self) -> (r: Option<&Duration>)
        ensures
            match r {
                Some(x) => self.parts().duration == Some(*x),
                None => self.parts().duration is None,
            },
    {
        self.duration.as_ref()
    }

    /// `attach`, in order.
    pub fn attach(&self) -> (r: &[Attachment])
        ensures
            r@ == self.parts().attach,
    {
        self.attach.as_slice()
    }

    /// `attendee`, in order.
    pub fn attendee(&self) -> (r: &[Attendee])
        ensures
            r@ == self.parts().attendee,
    {
        self.attendee.as_slice()
    }

    /// `categories`, in order.
    pub fn categories(&self) -> (r: &[Categories])
        ensures
            r@ == self.parts().categories,
    {
        self.categories.as_slice()
    }

    /// `comment`, in order.
    pub fn comment(&self) -> (r: &[Comment])
        ensures
            r@ == self.parts().comment,
    {
        self.comment.as_slice()
    }

    /// `contact`, in order.
    pub fn contact(&self) -> (r: &[Contact])
        ensures
            r@ == self.parts().contact,
    {
        self.contact.as_slice()
    }

    /// `exdate`, in order.
    pub fn exdate(&self) -> (r: &[ExceptionDateTimes])
        ensures
            r@ == self.parts().exdate,
    {
        self.exdate.as_slice()
    }

    /// `rstatus`, in order.
    pub fn rstatus(&self) -> (r: &[RequestStatus])
        ensures
            r@ == self.parts().rstatus,
    {
        self.rstatus.as_slice()
    }

    /// `related`, in order.
    pub fn related(&self) -> (r: &[RelatedTo])
        ensures
            r@ == self.parts().related,
    {
        self.related.as_slice()
    }

    /// `resources`, in order.
    pub fn resources(&self) -> (r: &[Resources])
        ensures
            r@ == self.parts().resources,
    {
        self.resources.as_slice()
    }

    /// `rdate`, in order.
    pub fn rdate(&self) -> (r: &[RecurrenceDateTimes])
        ensures
            r@ == self.parts().rdate,
    {
        self.rdate.as_slice()
    }

    /// `xprop`, in order.
    pub fn xprop(&self) -> (r: &[Xprop])
        ensures
            r@ == self.parts().xprop,
    {
        self.xprop.as_slice()
    }

    /// `iana`, in order.
    pub fn iana(&self) -> (r: &[Iana])
        ensures
            r@ == self.parts().iana,
    {
        self.iana.as_slice()
    }

    /// `alarms`, in order.
    pub fn alarms(&self) -> (r: &[Alarm])
        ensures
            r@ == self.parts().alarms,
    {
        self.alarms.as_slice()
    }

    /// `color`, if set.
    pub fn color(&self) -> (r: Option<&Color>)
        ensures
            match r {
                Some(x) => self.parts().color == Some(*x),
                None => self.parts().color is None,
            },
    {
        self.color.as_ref()
    }

    /// `image`, in order.
    pub fn image(&self) -> (r: &[Image])
        ensures
            r@ == self.parts().image,
    {
        self.image.as_slice()
    }

    /// `conference`, in order.
    pub fn conference(&self) -> (r: &[Conference])
        ensures
            r@ == self.parts().conference,
    {
        self.conference.as_slice()
    }

    fn write_lines_0(&self, out: &mut Vec<u8>)
        ensures
            final(out)@ == old(out)@ + event_lines_0(self.parts()),
    {
        write_line(&self.dtstamp, out);
        write_line(&self.uid, out);
        write_opt_line(&self.dtstart, out);
        write_opt_line(&self.class, out);
        write_opt_line(&self.created, out);
        write_opt_line(&self.description, out);
        write_opt_line(&self.geo, out);
        write_opt_line(&self.last_mod, out);
        assert(out@ =~= old(out)@ + event_lines_0(self.parts()));
    }

    fn write_lines_1(&self, out: &mut Vec<u8>)
        ensures
            final(out)@ == old(out)@ + event_lines_1(self.parts()),
    {
        write_opt_line(&self.location, out);
        write_opt_line(&self.organizer, out);
        write_opt_line(&self.priority, out);
        write_opt_line(&self.seq, out);
        write_opt_line(&self.status, out);
        write_opt_line(&self.summary, out);
        write_opt_line(&self.transp, out);
        write_opt_line(&self.url, out);
        assert(out@ =~= old(out)@ + event_lines_1(self.parts()));
    }

    fn write_lines_2(&self, out: &mut Vec<u8>)
        ensures
            final(out)@ == old(out)@ + event_lines_2(self.parts()),
    {
        write_opt_line(&self.recurid, out);
        write_opt_line(&self.rrule, out);
        write_opt_line(&self.dtend, out);
        write_opt_line(&self.duration, out);
        write_lines(self.attach.as_slice(), out);
        write_lines(self.attendee.as_slice(), out);
        write_lines(self.categories.as_slice(), out);
        write_lines(self.comment.as_slice(), out);
        assert(out@ =~= old(out)@ + event_lines_2(self.parts()));
    }

    fn write_lines_3(&self, out: &mut Vec<u8>)
        ensures
            final(out)@ == old(out)@ + event_lines_3(self.parts()),
    {
        write_lines(self.contact.as_slice(), out);
        write_lines(self.exdate.as_slice(), out);
        write_lines(self.rstatus.as_slice(), out);
        write_lines(self.related.as_slice(), out);
        write_lines(self.resources.as_slice(), out);
        write_lines(self.rdate.as_slice(), out);
        write_opt_line(&self.color, out);
        write_lines(self.image.as_slice(), out);
        assert(out@ =~= old(out)@ + event_lines_3(self.parts()));
    }

    fn write_lines_4(&self, out: &mut Vec<u8>)
        ensures
            final(out)@ == old(out)@ + event_lines_4(self.parts()),
    {
        write_lines(self.conference.as_slice(), out);
        write_lines(self.xprop.as_slice(), out);
        write_lines(self.iana.as_slice(), out);
        write_blocks(self.alarms.as_slice(), out);
        assert(out@ =~= old(out)@ + event_lines_4(self.parts()));
    }

    fn write_body(&self, out: &mut Vec<u8>)
        ensures
            final(out)@ == old(out)@ + event_body(self.parts()),
    {
        reveal(event_body);
        self.write_lines_0(out);
        self.write_lines_1(out);
        self.write_lines_2(out);
        self.write_lines_3(out);
        self.write_lines_4(out);
        assert(out@ =~= old(out)@ + event_body(self.parts()));
    }
}

impl Ical for Event {
    /// `BEGIN:VEVENT`, a line for each property, each nested component, and
    /// `END:VEVENT`.
    open spec fn ical(&self) -> Seq<u8> {
        delimiter("BEGIN:", "VEVENT") + event_body(self.parts()) + delimiter("END:", "VEVENT")
    }

    proof fn lemma_ical_valid(&self) {
        lemma_delimiter_valid("BEGIN:", "VEVENT");
        lemma_delimiter_valid("END:", "VEVENT");
        lemma_event_body_valid(self.parts());
        vstd::utf8::valid_utf8_concat(delimiter("BEGIN:", "VEVENT"), event_body(self.parts()));
        vstd::utf8::valid_utf8_concat(
            delimiter("BEGIN:", "VEVENT") + event_body(self.parts()),
            delimiter("END:", "VEVENT"),
        );
    }

    fn write_to(&self, out: &mut Vec<u8>) {
        write_delimiter("BEGIN:", "VEVENT", out);
        self.write_body(out);
        write_delimiter("END:", "VEVENT", out);
        assert(out@ =~= old(out)@ + self.ical());
    }
}

/// What building a [`Event`] checks, in order; the first failure is the outcome.
pub open spec fn event_check(p: EventParts, has_method: bool) -> Result<(), ComponentError> {
    if !has_method && p.dtstart is None {
        Err(ComponentError::MissingField("DTSTART"))
    } else {
        match p.dtstart {
            Some(s) => start_checks(s, p.rrule, end_value(p.dtend), "DTEND", p.exdate, p.rdate),
            None => Ok(()),
        }
    }
}

/// The state of a builder before either of its two mutually exclusive ends
/// has been set.
#[derive(Debug)]
pub struct Unset;

/// The state of a builder once `DTEND` is set: `DURATION` can no longer be.
#[derive(Debug)]
pub struct HasDtend;

/// The state of a builder once `DURATION` is set: the other end can no
/// longer be.
#[derive(Debug)]
pub struct HasDuration;

/// Builds an [`Event`]; `DTEND` and `DURATION` exclude each other by the
/// builder's state.
#[derive(Debug)]
pub struct EventBuilder<S> {
    dtstamp: DateTimeStamp,
    uid: Uid,
    dtstart: Option<DateTimeStart>,
    class: Option<Classification>,
    created: Option<DateTimeCreated>,
    description: Option<Description>,
    geo: Option<Geo>,
    last_mod: Option<LastModified>,
    location: Option<Location>,
    organizer: Option<Organizer>,
    priority: Option<Priority>,
    seq: Option<Sequence>,
    status: Option<Status>,
    summary: Option<Summary>,
    transp: Option<TimeTransparency>,
    url: Option<UniformResourceLocator>,
    recurid: Option<RecurrenceId>,
    rrule: Option<RRule>,
    dtend: Option<DateTimeEnd>,
    duration: Option<Duration>,
    attach: Vec<Attachment>,
    attendee: Vec<Attendee>,
    categories: Vec<Categories>,
    comment: Vec<Comment>,
    contact: Vec<Contact>,
    exdate: Vec<ExceptionDateTimes>,
    rstatus: Vec<RequestStatus>,
    related: Vec<RelatedTo>,
    resources: Vec<Resources>,
    rdate: Vec<RecurrenceDateTimes>,
    color: Option<Color>,
    image: Vec<Image>,
    conference: Vec<Conference>,
    xprop: Vec<Xprop>,
    iana: Vec<Iana>,
    alarms: Vec<Alarm>,
    _state: PhantomData<S>,
}

impl<S> EventBuilder<S> {
    /// The properties held.
    pub closed spec fn parts(&self) -> EventParts {
        EventParts {
            dtstamp: self.dtstamp,
            uid: self.uid,
            dtstart: self.dtstart,
            class: self.class,
            created: self.created,
            description: self.description,
            geo: self.geo,
            last_mod: self.last_mod,
            location: self.location,
            organizer: self.organizer,
            priority: self.priority,
            seq: self.seq,
            status: self.status,
            summary: self.summary,
            transp: self.transp,
            url: self.url,
            recurid: self.recurid,
            rrule: self.rrule,
            dtend: self.dtend,
            duration: self.duration,
            attach: self.attach@,
            attendee: self.attendee@,
            categories: self.categories@,
            comment: self.comment@,
            contact: self.contact@,
            exdate: self.exdate@,
            rstatus: self.rstatus@,
            related: self.related@,
            resources: self.resources@,
            rdate: self.rdate@,
            color: self.color,
            image: self.image@,
            conference: self.conference@,
            xprop: self.xprop@,
            iana: self.iana@,
            alarms: self.alarms@,
        }
    }

    /// The same properties, in another state.
    fn retag<S2>(self) -> (r: EventBuilder<S2>)
        ensures
            r.parts() == self.parts(),
    {
        EventBuilder {
            dtstamp: self.dtstamp,
            uid: self.uid,
            dtstart: self.dtstart,
            class: self.class,
            created: self.created,
            description: self.description,
            geo: self.geo,
            last_mod: self.last_mod,
            location: self.location,
            organizer: self.organizer,
            priority: self.priority,
            seq: self.seq,
            status: self.status,
            summary: self.summary,
            transp: self.transp,
            url: self.url,
            recurid: self.recurid,
            rrule: self.rrule,
            dtend: self.dtend,
            duration: self.duration,
            attach: self.attach,
            attendee: self.attendee,
            categories: self.categories,
            comment: self.comment,
            contact: self.contact,
            exdate: self.exdate,
            rstatus: self.rstatus,
            related: self.related,
            resources: self.resources,
            rdate: self.rdate,
            color: self.color,
            image: self.image,
            conference: self.conference,
            xprop: self.xprop,
            iana: self.iana,
            alarms: self.alarms,
            _state: PhantomData,
        }
    }

    /// Sets `dtstart`.
    pub fn dtstart(self, v: DateTimeStart) -> (r: EventBuilder<S>)
        ensures
            r.parts() == (EventParts { dtstart: Some(v), ..self.parts() }),
    {
        let mut b = self;
        b.dtstart = Some(v);
        b
    }

    /// Sets `class`.
    pub fn class(self, v: Classification) -> (r: EventBuilder<S>)
        ensures
            r.parts() == (EventParts { class: Some(v), ..self.parts() }),
    {
        let mut b = self;
        b.class = Some(v);
        b
    }

    /// Sets `created`.
    pub fn created(self, v: DateTimeCreated) -> (r: EventBuilder<S>)
        ensures
            r.parts() == (EventParts { created: Some(v), ..self.parts() }),
    {
        let mut b = self;
        b.created = Some(v);
        b
    }

    /// Sets `description`.
    pub fn description(self, v: Description) -> (r: EventBuilder<S>)
        ensures
            r.parts() == (EventParts { description: Some(v), ..self.parts() }),
    {
        let mut b = self;
        b.description = Some(v);
        b
    }

    /// Sets `geo`.
    pub fn geo(self, v: Geo) -> (r: EventBuilder<S>)
        ensures
            r.parts() == (EventParts { geo: Some(v), ..self.parts() }),
    {
        let mut b = self;
        b.geo = Some(v);
        b
    }

    /// Sets `last_mod`.
    pub fn last_mod(self, v: LastModified) -> (r: EventBuilder<S>)
        ensures
            r.parts() == (EventParts { last_mod: Some(v), ..self.parts() }),
    {
        let mut b = self;
        b.last_mod = Some(v);
        b
    }

    /// Sets `location`.
    pub fn location(self, v: Location) -> (r: EventBuilder<S>)
        ensures
            r.parts() == (EventParts { location: Some(v), ..self.parts() }),
    {
        let mut b = self;
        b.location = Some(v);
        b
    }

    /// Sets `organizer`.
    pub fn organizer(self, v: Organizer) -> (r: EventBuilder<S>)
        ensures
            r.parts() == (EventParts { organizer: Some(v), ..self.parts() }),
    {
        let mut b = self;
        b.organizer = Some(v);
        b
    }

    /// Sets `priority`.
    pub fn priority(self, v: Priority) -> (r: EventBuilder<S>)
        ensures
            r.parts() == (EventParts { priority: Some(v), ..self.parts() }),
    {
        let mut b = self;
        b.priority = Some(v);
        b
    }

    /// Sets `seq`.
    pub fn seq(self, v: Sequence) -> (r: EventBuilder<S>)
        ensures
            r.parts() == (EventParts { seq: Some(v), ..self.parts() }),
    {
        let mut b = self;
        b.seq = Some(v);
        b
    }

    /// Sets `status`.
    pub fn status(self, v: Status) -> (r: EventBuilder<S>)
        ensures
            r.parts() == (EventParts { status: Some(v), ..self.parts() }),
    {
        let mut b = self;
        b.status = Some(v);
        b
    }

    /// Sets `summary`.
    pub fn summary(self, v: Summary) -> (r: EventBuilder<S>)
        ensures
            r.parts() == (EventParts { summary: Some(v), ..self.parts() }),
    {
        let mut b = self;
        b.summary = Some(v);
        b
    }

    /// Sets `transp`.
    pub fn transp(self, v: TimeTransparency) -> (r: EventBuilder<S>)
        ensures
            r.parts() == (EventParts { transp: Some(v), ..self.parts() }),
    {
        let mut b = self;
        b.transp = Some(v);
        b
    }

    /// Sets `url`.
    pub fn url(self, v: UniformResourceLocator) -> (r: EventBuilder<S>)
        ensures
            r.parts() == (EventParts { url: Some(v), ..self.parts() }),
    {
        let mut b = self;
        b.url = Some(v);
        b
    }

    /// Sets `recurid`.
    pub fn recurid(self, v: RecurrenceId) -> (r: EventBuilder<S>)
        ensures
            r.parts() == (EventParts { recurid: Some(v), ..self.parts() }),
    {
        let mut b = self;
        b.recurid = Some(v);
        b
    }

    /// Sets `rrule`.
    pub fn rrule(self, v: RRule) -> (r: EventBuilder<S>)
        ensures
            r.parts() == (EventParts { rrule: Some(v), ..self.parts() }),
    {
        let mut b = self;
        b.rrule = Some(v);
        b
    }

    /// Adds a `attach`.
    pub fn attach(self, v: Attachment) -> (r: EventBuilder<S>)
        ensures
            r.parts() == (EventParts { attach: self.parts().attach.push(v), ..self.parts() }),
    {
        let mut b = self;
        b.attach.push(v);
        b
    }

    /// Adds a `attendee`.
    pub fn attendee(self, v: Attendee) -> (r: EventBuilder<S>)
        ensures
            r.parts() == (EventParts { attendee: self.parts().attendee.push(v), ..self.parts() }),
    {
        let mut b = self;
        b.attendee.push(v);
        b
    }

    /// Adds a `categories`.
    pub fn categories(self, v: Categories) -> (r: EventBuilder<S>)
        ensures
            r.parts() == (EventParts { categories: self.parts().categories.push(v), ..self.parts() }),
    {
        let mut b = self;
        b.categories.push(v);
        b
    }

    /// Adds a `comment`.
    pub fn comment(self, v: Comment) -> (r: EventBuilder<S>)
        ensures
            r.parts() == (EventParts { comment: self.parts().comment.push(v), ..self.parts() }),
    {
        let mut b = self;
        b.comment.push(v);
        b
    }

    /// Adds a `contact`.
    pub fn contact(self, v: Contact) -> (r: EventBuilder<S>)
        ensures
            r.parts() == (EventParts { contact: self.parts().contact.push(v), ..self.parts() }),
    {
        let mut b = self;
        b.contact.push(v);
        b
    }

    /// Adds a `exdate`.
    pub fn exdate(self, v: ExceptionDateTimes) -> (r: EventBuilder<S>)
        ensures
            r.parts() == (EventParts { exdate: self.parts().exdate.push(v), ..self.parts() }),
    {
        let mut b = self;
        b.exdate.push(v);
        b
    }

    /// Adds a `rstatus`.
    pub fn rstatus(self, v: RequestStatus) -> (r: EventBuilder<S>)
        ensures
            r.parts() == (EventParts { rstatus: self.parts().rstatus.push(v), ..self.parts() }),
    {
        let mut b = self;
        b.rstatus.push(v);
        b
    }

    /// Adds a `related`.
    pub fn related(self, v: RelatedTo) -> (r: EventBuilder<S>)
        ensures
            r.parts() == (EventParts { related: self.parts().related.push(v), ..self.parts() }),
    {
        let mut b = self;
        b.related.push(v);
        b
    }

    /// Adds a `resources`.
    pub fn resources(self, v: Resources) -> (r: EventBuilder<S>)
        ensures
            r.parts() == (EventParts { resources: self.parts().resources.push(v), ..self.parts() }),
    {
        let mut b = self;
        b.resources.push(v);
        b
    }

    /// Adds a `rdate`.
    pub fn rdate(self, v: RecurrenceDateTimes) -> (r: EventBuilder<S>)
        ensures
            r.parts() == (EventParts { rdate: self.parts().rdate.push(v), ..self.parts() }),
    {
        let mut b = self;
        b.rdate.push(v);
        b
    }

    /// Sets `color`.
    pub fn color(self, v: Color) -> (r: EventBuilder<S>)
        ensures
            r.parts() == (EventParts { color: Some(v), ..self.parts() }),
    {
        let mut b = self;
        b.color = Some(v);
        b
    }

    /// Adds a `image`.
    pub fn image(self, v: Image) -> (r: EventBuilder<S>)
        ensures
            r.parts() == (EventParts { image: self.parts().image.push(v), ..self.parts() }),
    {
        let mut b = self;
        b.image.push(v);
        b
    }

    /// Adds a `conference`.
    pub fn conference(self, v: Conference) -> (r: EventBuilder<S>)
        ensures
            r.parts() == (EventParts { conference: self.parts().conference.push(v), ..self.parts() }),
    {
        let mut b = self;
        b.conference.push(v);
        b
    }

    /// Adds a `xprop`.
    pub fn xprop(self, v: Xprop) -> (r: EventBuilder<S>)
        ensures
            r.parts() == (EventParts { xprop: self.parts().xprop.push(v), ..self.parts() }),
    {
        let mut b = self;
        b.xprop.push(v);
        b
    }

    /// Adds a `iana`.
    pub fn iana(self, v: Iana) -> (r: EventBuilder<S>)
        ensures
            r.parts() == (EventParts { iana: self.parts().iana.push(v), ..self.parts() }),
    {
        let mut b = self;
        b.iana.push(v);
        b
    }

    /// Adds a `alarms`.
    pub fn alarm(self, v: Alarm) -> (r: EventBuilder<S>)
        ensures
            r.parts() == (EventParts { alarms: self.parts().alarms.push(v), ..self.parts() }),
    {
        let mut b = self;
        b.alarms.push(v);
        b
    }

    /// Checks the rules that hold between the properties, and builds the
    /// component.
    pub fn build(self, has_method: bool) -> (r: Result<Event, ComponentError>)
        ensures
            r is Ok <==> event_check(self.parts(), has_method) is Ok,
            r matches Err(e) ==> event_check(self.parts(), has_method) == Err::<(), ComponentError>(e),
            r matches Ok(c) ==> c.parts() == self.parts(),
    {
        if !has_method && self.dtstart.is_none() {
            return Err(ComponentError::MissingField("DTSTART"));
        }
        let end = match &self.dtend {
            Some(e) => Some(e.value()),
            None => None,
        };
        if let Some(s) = &self.dtstart {
            if let Err(e) = check_start(s, self.rrule.as_ref(), end, "DTEND", self.exdate.as_slice(), self.rdate.as_slice()) {
                return Err(e);
            }
        }
        Ok(
            Event {
                dtstamp: self.dtstamp,
                uid: self.uid,
                dtstart: self.dtstart,
                class: self.class,
                created: self.created,
                description: self.description,
                geo: self.geo,
                last_mod: self.last_mod,
                location: self.location,
                organizer: self.organizer,
                priority: self.priority,
                seq: self.seq,
                status: self.status,
                summary: self.summary,
                transp: self.transp,
                url: self.url,
                recurid: self.recurid,
                rrule: self.rrule,
                dtend: self.dtend,
                duration: self.duration,
                attach: self.attach,
                attendee: self.attendee,
                categories: self.categories,
                comment: self.comment,
                contact: self.contact,
                exdate: self.exdate,
                rstatus: self.rstatus,
                related: self.related,
                resources: self.resources,
                rdate: self.rdate,
                color: self.color,
                image: self.image,
                conference: self.conference,
                xprop: self.xprop,
                iana: self.iana,
                alarms: self.alarms,
            }
        )
    }
}

impl EventBuilder<Unset> {
    /// A builder with the two properties an event always requires.
    pub fn new(dtstamp: DateTimeStamp, uid: Uid) -> (r: EventBuilder<Unset>)
        ensures
            r.parts() == (EventParts { dtstamp, uid, dtstart: None, class: None, created: None, description: None, geo: None, last_mod: None, location: None, organizer: None, priority: None, seq: None, status: None, summary: None, transp: None, url: None, recurid: None, rrule: None, dtend: None, duration: None, attach: Seq::empty(), attendee: Seq::empty(), categories: Seq::empty(), comment: Seq::empty(), contact: Seq::empty(), exdate: Seq::empty(), rstatus: Seq::empty(), related: Seq::empty(), resources: Seq::empty(), rdate: Seq::empty(), color: None, image: Seq::empty(), conference: Seq::empty(), xprop: Seq::empty(), iana: Seq::empty(), alarms: Seq::empty() }),
    {
        EventBuilder {
            dtstamp,
            uid,
            dtstart: None,
            class: None,
            created: None,
            description: None,
            geo: None,
            last_mod: None,
            location: None,
            organizer: None,
            priority: None,
            seq: None,
            status: None,
            summary: None,
            transp: None,
            url: None,
            recurid: None,
            rrule: None,
            dtend: None,
            duration: None,
            attach: Vec::new(),
            attendee: Vec::new(),
            categories: Vec::new(),
            comment: Vec::new(),
            contact: Vec::new(),
            exdate: Vec::new(),
            rstatus: Vec::new(),
            related: Vec::new(),
            resources: Vec::new(),
            rdate: Vec::new(),
            color: None,
            image: Vec::new(),
            conference: Vec::new(),
            xprop: Vec::new(),
            iana: Vec::new(),
            alarms: Vec::new(),
            _state: PhantomData,
        }
    }

    /// Sets `dtend`, which rules out the other end of the component.
    pub fn dtend(self, v: DateTimeEnd) -> (r: EventBuilder<HasDtend>)
        ensures
            r.parts() == (EventParts { dtend: Some(v), ..self.parts() }),
    {
        let mut b: EventBuilder<HasDtend> = self.retag();
        b.dtend = Some(v);
        b
    }

    /// Sets `duration`, which rules out the other end of the component.
    pub fn duration(self, v: Duration) -> (r: EventBuilder<HasDuration>)
        ensures
            r.parts() == (EventParts { duration: Some(v), ..self.parts() }),
    {
        let mut b: EventBuilder<HasDuration> = self.retag();
        b.duration = Some(v);
        b
    }
}


/// The properties of a [`EventParseBuilder`], as values.
pub ghost struct EventParseParts {
    /// `dtstamp`.
    pub dtstamp: Option<DateTimeStamp>,
    /// `uid`.
    pub uid: Option<Uid>,
    /// `dtstart`.
    pub dtstart: Option<DateTimeStart>,
    /// `class`.
    pub class: Option<Classification>,
    /// `created`.
    pub created: Option<DateTimeCreated>,
    /// `description`.
    pub description: Option<Description>,
    /// `geo`.
    pub geo: Option<Geo>,
    /// `last_mod`.
    pub last_mod: Option<LastModified>,
    /// `location`.
    pub location: Option<Location>,
    /// `organizer`.
    pub organizer: Option<Organizer>,
    /// `priority`.
    pub priority: Option<Priority>,
    /// `seq`.
    pub seq: Option<Sequence>,
    /// `status`.
    pub status: Option<Status>,
    /// `summary`.
    pub summary: Option<Summary>,
    /// `transp`.
    pub transp: Option<TimeTransparency>,
    /// `url`.
    pub url: Option<UniformResourceLocator>,
    /// `recurid`.
    pub recurid: Option<RecurrenceId>,
    /// `rrule`.
    pub rrule: Option<RRule>,
    /// `dtend`.
    pub dtend: Option<DateTimeEnd>,
    /// `duration`.
    pub duration: Option<Duration>,
    /// `attach`.
    pub attach: Seq<Attachment>,
    /// `attendee`.
    pub attendee: Seq<Attendee>,
    /// `categories`.
    pub categories: Seq<Categories>,
    /// `comment`.
    pub comment: Seq<Comment>,
    /// `contact`.
    pub contact: Seq<Contact>,
    /// `exdate`.
    pub exdate: Seq<ExceptionDateTimes>,
    /// `rstatus`.
    pub rstatus: Seq<RequestStatus>,
    /// `related`.
    pub related: Seq<RelatedTo>,
    /// `resources`.
    pub resources: Seq<Resources>,
    /// `rdate`.
    pub rdate: Seq<RecurrenceDateTimes>,
    /// `color`.
    pub color: Option<Color>,
    /// `image`.
    pub image: Seq<Image>,
    /// `conference`.
    pub conference: Seq<Conference>,
    /// `xprop`.
    pub xprop: Seq<Xprop>,
    /// `iana`.
    pub iana: Seq<Iana>,
    /// `alarms`.
    pub alarms: Seq<Alarm>,
}

/// Collects the content lines of a component being read, in the order
/// they come, and builds it at its end.
#[derive(Debug)]
pub struct EventParseBuilder {
    dtstamp: Option<DateTimeStamp>,
    uid: Option<Uid>,
    dtstart: Option<DateTimeStart>,
    class: Option<Classification>,
    created: Option<DateTimeCreated>,
    description: Option<Description>,
    geo: Option<Geo>,
    last_mod: Option<LastModified>,
    location: Option<Location>,
    organizer: Option<Organizer>,
    priority: Option<Priority>,
    seq: Option<Sequence>,
    status: Option<Status>,
    summary: Option<Summary>,
    transp: Option<TimeTransparency>,
    url: Option<UniformResourceLocator>,
    recurid: Option<RecurrenceId>,
    rrule: Option<RRule>,
    dtend: Option<DateTimeEnd>,
    duration: Option<Duration>,
    attach: Vec<Attachment>,
    attendee: Vec<Attendee>,
    categories: Vec<Categories>,
    comment: Vec<Comment>,
    contact: Vec<Contact>,
    exdate: Vec<ExceptionDateTimes>,
    rstatus: Vec<RequestStatus>,
    related: Vec<RelatedTo>,
    resources: Vec<Resources>,
    rdate: Vec<RecurrenceDateTimes>,
    color: Option<Color>,
    image: Vec<Image>,
    conference: Vec<Conference>,
    xprop: Vec<Xprop>,
    iana: Vec<Iana>,
    alarms: Vec<Alarm>,
}

/// What reading the property `p` does to the properties `q` collected so
/// far: a property held once may not come twice, one held many times is
/// added, and one the component doesn't hold is refused.
#[verifier::opaque]
pub open spec fn event_ingest(q: EventParseParts, p: Property) -> Result<EventParseParts, PropertyError> {
    match p {
        Property::DateTimeStamp(x) => if q.dtstamp is Some {
            Err(PropertyError::DuplicateProperty("DTSTAMP"))
        } else {
            Ok(EventParseParts { dtstamp: Some(x), ..q })
        },
        Property::Uid(x) => if q.uid is Some {
            Err(PropertyError::DuplicateProperty("UID"))
        } else {
            Ok(EventParseParts { uid: Some(x), ..q })
        },
        Property::DateTimeStart(x) => if q.dtstart is Some {
            Err(PropertyError::DuplicateProperty("DTSTART"))
        } else {
            Ok(EventParseParts { dtstart: Some(x), ..q })
        },
        Property::Classification(x) => if q.class is Some {
            Err(PropertyError::DuplicateProperty("CLASS"))
        } else {
            Ok(EventParseParts { class: Some(x), ..q })
        },
        Property::DateTimeCreated(x) => if q.created is Some {
            Err(PropertyError::DuplicateProperty("CREATED"))
        } else {
            Ok(EventParseParts { created: Some(x), ..q })
        },
        Property::Description(x) => if q.description is Some {
            Err(PropertyError::DuplicateProperty("DESCRIPTION"))
        } else {
            Ok(EventParseParts { description: Some(x), ..q })
        },
        Property::Geo(x) => if q.geo is Some {
            Err(PropertyError::DuplicateProperty("GEO"))
        } else {
            Ok(EventParseParts { geo: Some(x), ..q })
        },
        Property::LastModified(x) => if q.last_mod is Some {
            Err(PropertyError::DuplicateProperty("LAST-MODIFIED"))
        } else {
            Ok(EventParseParts { last_mod: Some(x), ..q })
        },
        Property::Location(x) => if q.location is Some {
            Err(PropertyError::DuplicateProperty("LOCATION"))
        } else {
            Ok(EventParseParts { location: Some(x), ..q })
        },
        Property::Organizer(x) => if q.organizer is Some {
            Err(PropertyError::DuplicateProperty("ORGANIZER"))
        } else {
            Ok(EventParseParts { organizer: Some(x), ..q })
        },
        Property::Priority(x) => if q.priority is Some {
            Err(PropertyError::DuplicateProperty("PRIORITY"))
        } else {
            Ok(EventParseParts { priority: Some(x), ..q })
        },
        Property::Sequence(x) => if q.seq is Some {
            Err(PropertyError::DuplicateProperty("SEQUENCE"))
        } else {
            Ok(EventParseParts { seq: Some(x), ..q })
        },
        Property::Status(x) => if q.status is Some {
            Err(PropertyError::DuplicateProperty("STATUS"))
        } else {
            Ok(EventParseParts { status: Some(x), ..q })
        },
        Property::Summary(x) => if q.summary is Some {
            Err(PropertyError::DuplicateProperty("SUMMARY"))
        } else {
            Ok(EventParseParts { summary: Some(x), ..q })
        },
        Property::TimeTransparency(x) => if q.transp is Some {
            Err(PropertyError::DuplicateProperty("TRANSP"))
        } else {
            Ok(EventParseParts { transp: Some(x), ..q })
        },
        Property::UniformResourceLocator(x) => if q.url is Some {
            Err(PropertyError::DuplicateProperty("URL"))
        } else {
            Ok(EventParseParts { url: Some(x), ..q })
        },
        Property::RecurrenceId(x) => if q.recurid is Some {
            Err(PropertyError::DuplicateProperty("RECURRENCE-ID"))
        } else {
            Ok(EventParseParts { recurid: Some(x), ..q })
        },
        Property::RRule(x) => if q.rrule is Some {
            Err(PropertyError::DuplicateProperty("RRULE"))
        } else {
            Ok(EventParseParts { rrule: Some(x), ..q })
        },
        Property::DateTimeEnd(x) => if q.dtend is Some {
            Err(PropertyError::DuplicateProperty("DTEND"))
        } else {
            Ok(EventParseParts { dtend: Some(x), ..q })
        },
        Property::Duration(x) => if q.duration is Some {
            Err(PropertyError::DuplicateProperty("DURATION"))
        } else {
            Ok(EventParseParts { duration: Some(x), ..q })
        },
        Property::Attachment(x) => Ok(EventParseParts { attach: q.attach.push(x), ..q }),
        Property::Attendee(x) => Ok(EventParseParts { attendee: q.attendee.push(x), ..q }),
        Property::Categories(x) => Ok(EventParseParts { categories: q.categories.push(x), ..q }),
        Property::Comment(x) => Ok(EventParseParts { comment: q.comment.push(x), ..q }),
        Property::Contact(x) => Ok(EventParseParts { contact: q.contact.push(x), ..q }),
        Property::ExceptionDateTimes(x) => Ok(EventParseParts { exdate: q.exdate.push(x), ..q }),
        Property::RequestStatus(x) => Ok(EventParseParts { rstatus: q.rstatus.push(x), ..q }),
        Property::RelatedTo(x) => Ok(EventParseParts { related: q.related.push(x), ..q }),
        Property::Resources(x) => Ok(EventParseParts { resources: q.resources.push(x), ..q }),
        Property::RecurrenceDateTimes(x) => Ok(EventParseParts { rdate: q.rdate.push(x), ..q }),
        Property::Color(x) => if q.color is Some {
            Err(PropertyError::DuplicateProperty("COLOR"))
        } else {
            Ok(EventParseParts { color: Some(x), ..q })
        },
        Property::Image(x) => Ok(EventParseParts { image: q.image.push(x), ..q }),
        Property::Conference(x) => Ok(EventParseParts { conference: q.conference.push(x), ..q }),
        Property::Xprop(x) => Ok(EventParseParts { xprop: q.xprop.push(x), ..q }),
        Property::Iana(x) => Ok(EventParseParts { iana: q.iana.push(x), ..q }),
        _ => Err(PropertyError::UnexpectedProperty),
    }
}

/// The properties `props` read one after the other into an empty
/// [`EventParseBuilder`], or the first refusal.
pub open spec fn event_fold(props: Seq<Property>) -> Result<EventParseParts, PropertyError>
    decreases props.len(),
{
    if props.len() == 0 {
        Ok(EventParseBuilder::empty_parts())
    } else {
        match event_fold(props.drop_last()) {
            Ok(q) => event_ingest(q, props.last()),
            Err(e) => Err(e),
        }
    }
}

/// Reading a property doesn't look at, nor touch, the nested components.
pub proof fn lemma_event_ingest_nested(q: EventParseParts, p: Property, alarms: Seq<Alarm>)
    ensures
        event_ingest(EventParseParts { alarms: alarms, ..q }, p) == match event_ingest(q, p) {
            Ok(q2) => Ok(EventParseParts { alarms: alarms, ..q2 }),
            Err(e) => Err(e),
        },
{
    reveal(event_ingest);
}

/// The properties `q` holds, once those it requires are there.
pub open spec fn event_parts_of(q: EventParseParts) -> EventParts {
    EventParts {
        dtstamp: q.dtstamp->0,
        uid: q.uid->0,
        dtstart: q.dtstart,
        class: q.class,
        created: q.created,
        description: q.description,
        geo: q.geo,
        last_mod: q.last_mod,
        location: q.location,
        organizer: q.organizer,
        priority: q.priority,
        seq: q.seq,
        status: q.status,
        summary: q.summary,
        transp: q.transp,
        url: q.url,
        recurid: q.recurid,
        rrule: q.rrule,
        dtend: q.dtend,
        duration: q.duration,
        attach: q.attach,
        attendee: q.attendee,
        categories: q.categories,
        comment: q.comment,
        contact: q.contact,
        exdate: q.exdate,
        rstatus: q.rstatus,
        related: q.related,
        resources: q.resources,
        rdate: q.rdate,
        color: q.color,
        image: q.image,
        conference: q.conference,
        xprop: q.xprop,
        iana: q.iana,
        alarms: q.alarms,
    }
}

/// The first property `q` requires and lacks, if any.
pub open spec fn event_missing(q: EventParseParts) -> Option<&'static str> {
    if q.dtstamp is None {
        Some("DTSTAMP")
    } else if q.uid is None {
        Some("UID")
    } else {
        None
    }
}

impl EventParseBuilder {
    /// The properties collected.
    pub closed spec fn parts(&self) -> EventParseParts {
        EventParseParts {
            dtstamp: self.dtstamp,
            uid: self.uid,
            dtstart: self.dtstart,
            class: self.class,
            created: self.created,
            description: self.description,
            geo: self.geo,
            last_mod: self.last_mod,
            location: self.location,
            organizer: self.organizer,
            priority: self.priority,
            seq: self.seq,
            status: self.status,
            summary: self.summary,
            transp: self.transp,
            url: self.url,
            recurid: self.recurid,
            rrule: self.rrule,
            dtend: self.dtend,
            duration: self.duration,
            attach: self.attach@,
            attendee: self.attendee@,
            categories: self.categories@,
            comment: self.comment@,
            contact: self.contact@,
            exdate: self.exdate@,
            rstatus: self.rstatus@,
            related: self.related@,
            resources: self.resources@,
            rdate: self.rdate@,
            color: self.color,
            image: self.image@,
            conference: self.conference@,
            xprop: self.xprop@,
            iana: self.iana@,
            alarms: self.alarms@,
        }
    }

    /// Nothing collected yet.
    pub open spec fn empty_parts() -> EventParseParts {
        EventParseParts {
            dtstamp: None,
            uid: None,
            dtstart: None,
            class: None,
            created: None,
            description: None,
            geo: None,
            last_mod: None,
            location: None,
            organizer: None,
            priority: None,
            seq: None,
            status: None,
            summary: None,
            transp: None,
            url: None,
            recurid: None,
            rrule: None,
            dtend: None,
            duration: None,
            attach: Seq::empty(),
            attendee: Seq::empty(),
            categories: Seq::empty(),
            comment: Seq::empty(),
            contact: Seq::empty(),
            exdate: Seq::empty(),
            rstatus: Seq::empty(),
            related: Seq::empty(),
            resources: Seq::empty(),
            rdate: Seq::empty(),
            color: None,
            image: Seq::empty(),
            conference: Seq::empty(),
            xprop: Seq::empty(),
            iana: Seq::empty(),
            alarms: Seq::empty(),
        }
    }

    /// A component with nothing collected yet.
    pub fn new() -> (r: EventParseBuilder)
        ensures
            r.parts() == EventParseBuilder::empty_parts(),
    {
        EventParseBuilder {
            dtstamp: None,
            uid: None,
            dtstart: None,
            class: None,
            created: None,
            description: None,
            geo: None,
            last_mod: None,
            location: None,
            organizer: None,
            priority: None,
            seq: None,
            status: None,
            summary: None,
            transp: None,
            url: None,
            recurid: None,
            rrule: None,
            dtend: None,
            duration: None,
            attach: Vec::new(),
            attendee: Vec::new(),
            categories: Vec::new(),
            comment: Vec::new(),
            contact: Vec::new(),
            exdate: Vec::new(),
            rstatus: Vec::new(),
            related: Vec::new(),
            resources: Vec::new(),
            rdate: Vec::new(),
            color: None,
            image: Vec::new(),
            conference: Vec::new(),
            xprop: Vec::new(),
            iana: Vec::new(),
            alarms: Vec::new(),
        }
    }

    /// Reads one property into the component.
    pub fn ingest(&mut self, p: Property) -> (r: Result<(), PropertyError>)
        ensures
            match event_ingest(old(self).parts(), p) {
                Ok(q) => r is Ok && final(self).parts() == q,
                Err(e) => r == Err::<(), PropertyError>(e) && final(self).parts() == old(self).parts(),
            },
            final(self).parts().alarms == old(self).parts().alarms,
    {
        reveal(event_ingest);
        match p {
            Property::DateTimeStamp(x) => {
                if self.dtstamp.is_some() {
                    return Err(PropertyError::DuplicateProperty("DTSTAMP"));
                }
                self.dtstamp = Some(x);
                Ok(())
            },
            Property::Uid(x) => {
                if self.uid.is_some() {
                    return Err(PropertyError::DuplicateProperty("UID"));
                }
                self.uid = Some(x);
                Ok(())
            },
            Property::DateTimeStart(x) => {
                if self.dtstart.is_some() {
                    return Err(PropertyError::DuplicateProperty("DTSTART"));
                }
                self.dtstart = Some(x);
                Ok(())
            },
            Property::Classification(x) => {
                if self.class.is_some() {
                    return Err(PropertyError::DuplicateProperty("CLASS"));
                }
                self.class = Some(x);
                Ok(())
            },
            Property::DateTimeCreated(x) => {
                if self.created.is_some() {
                    return Err(PropertyError::DuplicateProperty("CREATED"));
                }
                self.created = Some(x);
                Ok(())
            },
            Property::Description(x) => {
                if self.description.is_some() {
                    return Err(PropertyError::DuplicateProperty("DESCRIPTION"));
                }
                self.description = Some(x);
                Ok(())
            },
            Property::Geo(x) => {
                if self.geo.is_some() {
                    return Err(PropertyError::DuplicateProperty("GEO"));
                }
                self.geo = Some(x);
                Ok(())
            },
            Property::LastModified(x) => {
                if self.last_mod.is_some() {
                    return Err(PropertyError::DuplicateProperty("LAST-MODIFIED"));
                }
                self.last_mod = Some(x);
                Ok(())
            },
            Property::Location(x) => {
                if self.location.is_some() {
                    return Err(PropertyError::DuplicateProperty("LOCATION"));
                }
                self.location = Some(x);
                Ok(())
            },
            Property::Organizer(x) => {
                if self.organizer.is_some() {
                    return Err(PropertyError::DuplicateProperty("ORGANIZER"));
                }
                self.organizer = Some(x);
                Ok(())
            },
            Property::Priority(x) => {
                if self.priority.is_some() {
                    return Err(PropertyError::DuplicateProperty("PRIORITY"));
                }
                self.priority = Some(x);
                Ok(())
            },
            Property::Sequence(x) => {
                if self.seq.is_some() {
                    return Err(PropertyError::DuplicateProperty("SEQUENCE"));
                }
                self.seq = Some(x);
                Ok(())
            },
            Property::Status(x) => {
                if self.status.is_some() {
                    return Err(PropertyError::DuplicateProperty("STATUS"));
                }
                self.status = Some(x);
                Ok(())
            },
            Property::Summary(x) => {
                if self.summary.is_some() {
                    return Err(PropertyError::DuplicateProperty("SUMMARY"));
                }
                self.summary = Some(x);
                Ok(())
            },
            Property::TimeTransparency(x) => {
                if self.transp.is_some() {
                    return Err(PropertyError::DuplicateProperty("TRANSP"));
                }
                self.transp = Some(x);
                Ok(())
            },
            Property::UniformResourceLocator(x) => {
                if self.url.is_some() {
                    return Err(PropertyError::DuplicateProperty("URL"));
                }
                self.url = Some(x);
                Ok(())
            },
            Property::RecurrenceId(x) => {
                if self.recurid.is_some() {
                    return Err(PropertyError::DuplicateProperty("RECURRENCE-ID"));
                }
                self.recurid = Some(x);
                Ok(())
            },
            Property::RRule(x) => {
                if self.rrule.is_some() {
                    return Err(PropertyError::DuplicateProperty("RRULE"));
                }
                self.rrule = Some(x);
                Ok(())
            },
            Property::DateTimeEnd(x) => {
                if self.dtend.is_some() {
                    return Err(PropertyError::DuplicateProperty("DTEND"));
                }
                self.dtend = Some(x);
                Ok(())
            },
            Property::Duration(x) => {
                if self.duration.is_some() {
                    return Err(PropertyError::DuplicateProperty("DURATION"));
                }
                self.duration = Some(x);
                Ok(())
            },
            Property::Attachment(x) => {
                self.attach.push(x);
                Ok(())
            },
            Property::Attendee(x) => {
                self.attendee.push(x);
                Ok(())
            },
            Property::Categories(x) => {
                self.categories.push(x);
                Ok(())
            },
            Property::Comment(x) => {
                self.comment.push(x);
                Ok(())
            },
            Property::Contact(x) => {
                self.contact.push(x);
                Ok(())
            },
            Property::ExceptionDateTimes(x) => {
                self.exdate.push(x);
                Ok(())
            },
            Property::RequestStatus(x) => {
                self.rstatus.push(x);
                Ok(())
            },
            Property::RelatedTo(x) => {
                self.related.push(x);
                Ok(())
            },
            Property::Resources(x) => {
                self.resources.push(x);
                Ok(())
            },
            Property::RecurrenceDateTimes(x) => {
                self.rdate.push(x);
                Ok(())
            },
            Property::Color(x) => {
                if self.color.is_some() {
                    return Err(PropertyError::DuplicateProperty("COLOR"));
                }
                self.color = Some(x);
                Ok(())
            },
            Property::Image(x) => {
                self.image.push(x);
                Ok(())
            },
            Property::Conference(x) => {
                self.conference.push(x);
                Ok(())
            },
            Property::Xprop(x) => {
                self.xprop.push(x);
                Ok(())
            },
            Property::Iana(x) => {
                self.iana.push(x);
                Ok(())
            },
            _ => Err(PropertyError::UnexpectedProperty),
        }
    }

    /// Adds a nested component read in full.
    pub fn push_alarms(&mut self, v: Alarm)
        ensures
            final(self).parts() == (EventParseParts { alarms: old(self).parts().alarms.push(v), ..old(self).parts() }),
    {
        self.alarms.push(v);
    }

    /// Builds the component: the properties it requires must be there,
    /// and then it is checked as its builder checks it.
    pub fn finish(self, has_method: bool) -> (r: Result<Event, ComponentError>)
        ensures
            event_missing(self.parts()) matches Some(n) ==> r == Err::<Event, ComponentError>(ComponentError::MissingField(n)),
            event_missing(self.parts()) is None ==> (r is Ok <==> event_check(event_parts_of(self.parts()), has_method) is Ok),
            event_missing(self.parts()) is None ==> (r matches Err(e) ==> event_check(event_parts_of(self.parts()), has_method) == Err::<(), ComponentError>(e)),
            r matches Ok(c) ==> c.parts() == event_parts_of(self.parts()),
    {
        let EventParseBuilder { dtstamp, uid, dtstart, class, created, description, geo, last_mod, location, organizer, priority, seq, status, summary, transp, url, recurid, rrule, dtend, duration, attach, attendee, categories, comment, contact, exdate, rstatus, related, resources, rdate, color, image, conference, xprop, iana, alarms } = self;
        let dtstamp = match dtstamp {
            Some(x) => x,
            None => {
                return Err(ComponentError::MissingField("DTSTAMP"));
            },
        };
        let uid = match uid {
            Some(x) => x,
            None => {
                return Err(ComponentError::MissingField("UID"));
            },
        };
        let b = EventBuilder::<Unset> {
            dtstamp,
            uid,
            dtstart,
            class,
            created,
            description,
            geo,
            last_mod,
            location,
            organizer,
            priority,
            seq,
            status,
            summary,
            transp,
            url,
            recurid,
            rrule,
            dtend,
            duration,
            attach,
            attendee,
            categories,
            comment,
            contact,
            exdate,
            rstatus,
            related,
            resources,
            rdate,
            color,
            image,
            conference,
            xprop,
            iana,
            alarms,
            _state: PhantomData,
        };
        b.build(has_method)
    }
}

} // verus!
