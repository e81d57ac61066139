//! To-dos (RFC 5545 §3.6.2).

use vstd::prelude::*;
use vstd::utf8::valid_utf8;
use std::marker::PhantomData;
use crate::components::{
    blocks, delimiter, first_err, lemma_blocks_valid, lemma_delimiter_valid, lemma_line_valid, lemma_lines_valid,
    lemma_opt_line_valid, line, lines, opt_line, start_checks, check_start, write_blocks, write_delimiter,
    write_line, write_lines, write_opt_line,
    ComponentError,
};
use crate::properties::component::change::{DateTimeCreated, DateTimeStamp, LastModified, Sequence};
use crate::properties::component::datetime::{Completed, DateTimeDue, DateTimeStart, Duration};
use crate::properties::component::descriptive::{Attachment, Categories, Classification, Color, Comment, Conference, Description, Geo, Image, Location, PercentComplete, Priority, Resources, Status, Summary};
use crate::properties::component::misc::{RequestStatus};
use crate::properties::component::recurrence::{ExceptionDateTimes, RRule, RecurrenceDateTimes};
use crate::properties::component::relationship::{Attendee, Contact, Organizer, RecurrenceId, RelatedTo, Uid, UniformResourceLocator};
use crate::properties::{Iana, Xprop};
use crate::components::alarm::Alarm;
use crate::properties::component::datetime::value_type_check;
use crate::values::datetime::DateOrDatetime;
use crate::values::Ical;
use crate::components::{due_value, end_value};


use crate::ast::property::Property;
use crate::properties::PropertyError;
verus! {

/// The properties of a [`Todo`] or of a [`TodoBuilder`].
pub struct TodoParts {
    /// `dtstamp`.
    pub dtstamp: DateTimeStamp,
    /// `uid`.
    pub uid: Uid,
    /// `class`.
    pub class: Option<Classification>,
    /// `completed`.
    pub completed: Option<Completed>,
    /// `created`.
    pub created: Option<DateTimeCreated>,
    /// `description`.
    pub description: Option<Description>,
    /// `dtstart`.
    pub dtstart: Option<DateTimeStart>,
    /// `geo`.
    pub geo: Option<Geo>,
    /// `last_mod`.
    pub last_mod: Option<LastModified>,
    /// `location`.
    pub location: Option<Location>,
    /// `organizer`.
    pub organizer: Option<Organizer>,
    /// `percent`.
    pub percent: Option<PercentComplete>,
    /// `priority`.
    pub priority: Option<Priority>,
    /// `recur_id`.
    pub recur_id: Option<RecurrenceId>,
    /// `seq`.
    pub seq: Option<Sequence>,
    /// `status`.
    pub status: Option<Status>,
    /// `summary`.
    pub summary: Option<Summary>,
    /// `url`.
    pub url: Option<UniformResourceLocator>,
    /// `rrule`.
    pub rrule: Option<RRule>,
    /// `due`.
    pub due: Option<DateTimeDue>,
    /// `duration`.
    pub duration: Option<Duration>,
    /// `attach`.
    pub attach: Seq<Attachment>,
    /// `attendee`.
    pub attendee: Seq<Attendee>,
    /// `categories`.
    pub categories: Seq<Categories>,
    /// `comment`.
    pub comment: Seq<Comment>,
    /// `contact`.
    pub contact: Seq<Contact>,
    /// `exdate`.
    pub exdate: Seq<ExceptionDateTimes>,
    /// `rstatus`.
    pub rstatus: Seq<RequestStatus>,
    /// `related`.
    pub related: Seq<RelatedTo>,
    /// `resources`.
    pub resources: Seq<Resources>,
    /// `rdate`.
    pub rdate: Seq<RecurrenceDateTimes>,
    /// `color`.
    pub color: Option<Color>,
    /// `image`.
    pub image: Seq<Image>,
    /// `conference`.
    pub conference: Seq<Conference>,
    /// `xprop`.
    pub xprop: Seq<Xprop>,
    /// `iana`.
    pub iana: Seq<Iana>,
    /// `alarms`.
    pub alarms: Seq<Alarm>,
}

/// A `VTODO` component (RFC 5545 §3.6.2): an action item or assignment.
#[derive(Debug)]
pub struct Todo {
    dtstamp: DateTimeStamp,
    uid: Uid,
    class: Option<Classification>,
    completed: Option<Completed>,
    created: Option<DateTimeCreated>,
    description: Option<Description>,
    dtstart: Option<DateTimeStart>,
    geo: Option<Geo>,
    last_mod: Option<LastModified>,
    location: Option<Location>,
    organizer: Option<Organizer>,
    percent: Option<PercentComplete>,
    priority: Option<Priority>,
    recur_id: Option<RecurrenceId>,
    seq: Option<Sequence>,
    status: Option<Status>,
    summary: Option<Summary>,
    url: Option<UniformResourceLocator>,
    rrule: Option<RRule>,
    due: Option<DateTimeDue>,
    duration: Option<Duration>,
    attach: Vec<Attachment>,
    attendee: Vec<Attendee>,
    categories: Vec<Categories>,
    comment: Vec<Comment>,
    contact: Vec<Contact>,
    exdate: Vec<ExceptionDateTimes>,
    rstatus: Vec<RequestStatus>,
    related: Vec<RelatedTo>,
    resources: Vec<Resources>,
    rdate: Vec<RecurrenceDateTimes>,
    color: Option<Color>,
    image: Vec<Image>,
    conference: Vec<Conference>,
    xprop: Vec<Xprop>,
    iana: Vec<Iana>,
    alarms: Vec<Alarm>,
}

/// Lines 0 of a written [`Todo`].
pub open spec fn todo_lines_0(p: TodoParts) -> Seq<u8> {
    line(p.dtstamp)
        + line(p.uid)
        + opt_line(p.class)
        + opt_line(p.completed)
        + opt_line(p.created)
        + opt_line(p.description)
        + opt_line(p.dtstart)
        + opt_line(p.geo)
}

/// Lines 1 of a written [`Todo`].
pub open spec fn todo_lines_1(p: TodoParts) -> Seq<u8> {
    opt_line(p.last_mod)
        + opt_line(p.location)
        + opt_line(p.organizer)
        + opt_line(p.percent)
        + opt_line(p.priority)
        + opt_line(p.recur_id)
        + opt_line(p.seq)
        + opt_line(p.status)
}

/// Lines 2 of a written [`Todo`].
pub open spec fn todo_lines_2(p: TodoParts) -> Seq<u8> {
    opt_line(p.summary)
        + opt_line(p.url)
        + opt_line(p.rrule)
        + opt_line(p.due)
        + opt_line(p.duration)
        + lines(p.attach)
        + lines(p.attendee)
        + lines(p.categories)
}

/// Lines 3 of a written [`Todo`].
pub open spec fn todo_lines_3(p: TodoParts) -> Seq<u8> {
    lines(p.comment)
        + lines(p.contact)
        + lines(p.exdate)
        + lines(p.rstatus)
        + lines(p.related)
        + lines(p.resources)
        + lines(p.rdate)
        + opt_line(p.color)
}

/// Lines 4 of a written [`Todo`].
pub open spec fn todo_lines_4(p: TodoParts) -> Seq<u8> {
    lines(p.image)
        + lines(p.conference)
        + lines(p.xprop)
        + lines(p.iana)
        + blocks(p.alarms)
}

/// The lines of a written [`Todo`], between its delimiters.
#[verifier::opaque]
pub open spec fn todo_body(p: TodoParts) -> Seq<u8> {
    todo_lines_0(p) + todo_lines_1(p) + todo_lines_2(p) + todo_lines_3(p) + todo_lines_4(p)
}

proof fn lemma_todo_lines_0_valid(p: TodoParts)
    ensures
        valid_utf8(todo_lines_0(p)),
{
    lemma_line_valid(p.dtstamp);
    lemma_line_valid(p.uid);
    lemma_opt_line_valid(p.class);
    lemma_opt_line_valid(p.completed);
    lemma_opt_line_valid(p.created);
    lemma_opt_line_valid(p.description);
    lemma_opt_line_valid(p.dtstart);
    lemma_opt_line_valid(p.geo);
    vstd::utf8::valid_utf8_concat(line(p.dtstamp), line(p.uid));
    vstd::utf8::valid_utf8_concat(line(p.dtstamp) + line(p.uid), opt_line(p.class));
    vstd::utf8::valid_utf8_concat(line(p.dtstamp) + line(p.uid) + opt_line(p.class), opt_line(p.completed));
    vstd::utf8::valid_utf8_concat(line(p.dtstamp) + line(p.uid) + opt_line(p.class) + opt_line(p.completed), opt_line(p.created));
    vstd::utf8::valid_utf8_concat(line(p.dtstamp) + line(p.uid) + opt_line(p.class) + opt_line(p.completed) + opt_line(p.created), opt_line(p.description));
    vstd::utf8::valid_utf8_concat(line(p.dtstamp) + line(p.uid) + opt_line(p.class) + opt_line(p.completed) + opt_line(p.created) + opt_line(p.description), opt_line(p.dtstart));
    vstd::utf8::valid_utf8_concat(line(p.dtstamp) + line(p.uid) + opt_line(p.class) + opt_line(p.completed) + opt_line(p.created) + opt_line(p.description) + opt_line(p.dtstart), opt_line(p.geo));
}

proof fn lemma_todo_lines_1_valid(p: TodoParts)
    ensures
        valid_utf8(todo_lines_1(p)),
{
    lemma_opt_line_valid(p.last_mod);
    lemma_opt_line_valid(p.location);
    lemma_opt_line_valid(p.organizer);
    lemma_opt_line_valid(p.percent);
    lemma_opt_line_valid(p.priority);
    lemma_opt_line_valid(p.recur_id);
    lemma_opt_line_valid(p.seq);
    lemma_opt_line_valid(p.status);
    vstd::utf8::valid_utf8_concat(opt_line(p.last_mod), opt_line(p.location));
    vstd::utf8::valid_utf8_concat(opt_line(p.last_mod) + opt_line(p.location), opt_line(p.organizer));
    vstd::utf8::valid_utf8_concat(opt_line(p.last_mod) + opt_line(p.location) + opt_line(p.organizer), opt_line(p.percent));
    vstd::utf8::valid_utf8_concat(opt_line(p.last_mod) + opt_line(p.location) + opt_line(p.organizer) + opt_line(p.percent), opt_line(p.priority));
    vstd::utf8::valid_utf8_concat(opt_line(p.last_mod) + opt_line(p.location) + opt_line(p.organizer) + opt_line(p.percent) + opt_line(p.priority), opt_line(p.recur_id));
    vstd::utf8::valid_utf8_concat(opt_line(p.last_mod) + opt_line(p.location) + opt_line(p.organizer) + opt_line(p.percent) + opt_line(p.priority) + opt_line(p.recur_id), opt_line(p.seq));
    vstd::utf8::valid_utf8_concat(opt_line(p.last_mod) + opt_line(p.location) + opt_line(p.organizer) + opt_line(p.percent) + opt_line(p.priority) + opt_line(p.recur_id) + opt_line(p.seq), opt_line(p.status));
}

proof fn lemma_todo_lines_2_valid(p: TodoParts)
    ensures
        valid_utf8(todo_lines_2(p)),
{
    lemma_opt_line_valid(p.summary);
    lemma_opt_line_valid(p.url);
    lemma_opt_line_valid(p.rrule);
    lemma_opt_line_valid(p.due);
    lemma_opt_line_valid(p.duration);
    lemma_lines_valid(p.attach);
    lemma_lines_valid(p.attendee);
    lemma_lines_valid(p.categories);
    vstd::utf8::valid_utf8_concat(opt_line(p.summary), opt_line(p.url));
    vstd::utf8::valid_utf8_concat(opt_line(p.summary) + opt_line(p.url), opt_line(p.rrule));
    vstd::utf8::valid_utf8_concat(opt_line(p.summary) + opt_line(p.url) + opt_line(p.rrule), opt_line(p.due));
    vstd::utf8::valid_utf8_concat(opt_line(p.summary) + opt_line(p.url) + opt_line(p.rrule) + opt_line(p.due), opt_line(p.duration));
    vstd::utf8::valid_utf8_concat(opt_line(p.summary) + opt_line(p.url) + opt_line(p.rrule) + opt_line(p.due) + opt_line(p.duration), lines(p.attach));
    vstd::utf8::valid_utf8_concat(opt_line(p.summary) + opt_line(p.url) + opt_line(p.rrule) + opt_line(p.due) + opt_line(p.duration) + lines(p.attach), lines(p.attendee));
    vstd::utf8::valid_utf8_concat(opt_line(p.summary) + opt_line(p.url) + opt_line(p.rrule) + opt_line(p.due) + opt_line(p.duration) + lines(p.attach) + lines(p.attendee), lines(p.categories));
}

proof fn lemma_todo_lines_3_valid(p: TodoParts)
    ensures
        valid_utf8(todo_lines_3(p)),
{
    lemma_lines_valid(p.comment);
    lemma_lines_valid(p.contact);
    lemma_lines_valid(p.exdate);
    lemma_lines_valid(p.rstatus);
    lemma_lines_valid(p.related);
    lemma_lines_valid(p.resources);
    lemma_lines_valid(p.rdate);
    lemma_opt_line_valid(p.color);
    vstd::utf8::valid_utf8_concat(lines(p.comment), lines(p.contact));
    vstd::utf8::valid_utf8_concat(lines(p.comment) + lines(p.contact), lines(p.exdate));
    vstd::utf8::valid_utf8_concat(lines(p.comment) + lines(p.contact) + lines(p.exdate), lines(p.rstatus));
    vstd::utf8::valid_utf8_concat(lines(p.comment) + lines(p.contact) + lines(p.exdate) + lines(p.rstatus), lines(p.related));
    vstd::utf8::valid_utf8_concat(lines(p.comment) + lines(p.contact) + lines(p.exdate) + lines(p.rstatus) + lines(p.related), lines(p.resources));
    vstd::utf8::valid_utf8_concat(lines(p.comment) + lines(p.contact) + lines(p.exdate) + lines(p.rstatus) + lines(p.related) + lines(p.resources), lines(p.rdate));
    vstd::utf8::valid_utf8_concat(lines(p.comment) + lines(p.contact) + lines(p.exdate) + lines(p.rstatus) + lines(p.related) + lines(p.resources) + lines(p.rdate), opt_line(p.color));
}

proof fn lemma_todo_lines_4_valid(p: TodoParts)
    ensures
        valid_utf8(todo_lines_4(p)),
{
    lemma_lines_valid(p.image);
    lemma_lines_valid(p.conference);
    lemma_lines_valid(p.xprop);
    lemma_lines_valid(p.iana);
    lemma_blocks_valid(p.alarms);
    vstd::utf8::valid_utf8_concat(lines(p.image), lines(p.conference));
    vstd::utf8::valid_utf8_concat(lines(p.image) + lines(p.conference), lines(p.xprop));
    vstd::utf8::valid_utf8_concat(lines(p.image) + lines(p.conference) + lines(p.xprop), lines(p.iana));
    vstd::utf8::valid_utf8_concat(lines(p.image) + lines(p.conference) + lines(p.xprop) + lines(p.iana), blocks(p.alarms));
}

proof fn lemma_todo_body_valid(p: TodoParts)
    ensures
        valid_utf8(todo_body(p)),
{
    reveal(todo_body);
    lemma_todo_lines_0_valid(p);
    lemma_todo_lines_1_valid(p);
    lemma_todo_lines_2_valid(p);
    lemma_todo_lines_3_valid(p);
    lemma_todo_lines_4_valid(p);
    vstd::utf8::valid_utf8_concat(todo_lines_0(p), todo_lines_1(p));
    vstd::utf8::valid_utf8_concat(todo_lines_0(p) + todo_lines_1(p), todo_lines_2(p));
    vstd::utf8::valid_utf8_concat(todo_lines_0(p) + todo_lines_1(p) + todo_lines_2(p), todo_lines_3(p));
    vstd::utf8::valid_utf8_concat(todo_lines_0(p) + todo_lines_1(p) + todo_lines_2(p) + todo_lines_3(p), todo_lines_4(p));
}

impl Todo {
    /// The properties held.
    pub closed spec fn parts(&self) -> TodoParts {
        TodoParts {
            dtstamp: self.dtstamp,
            uid: self.uid,
            class: self.class,
            completed: self.completed,
            created: self.created,
            description: self.description,
            dtstart: self.dtstart,
            geo: self.geo,
            last_mod: self.last_mod,
            location: self.location,
            organizer: self.organizer,
            percent: self.percent,
            priority: self.priority,
            recur_id: self.recur_id,
            seq: self.seq,
            status: self.status,
            summary: self.summary,
            url: self.url,
            rrule: self.rrule,
            due: self.due,
            duration: self.duration,
            attach: self.attach@,
            attendee: self.attendee@,
            categories: self.categories@,
            comment: self.comment@,
            contact: self.contact@,
            exdate: self.exdate@,
            rstatus: self.rstatus@,
            related: self.related@,
            resources: self.resources@,
            rdate: self.rdate@,
            color: self.color,
            image: self.image@,
            conference: self.conference@,
            xprop: self.xprop@,
            iana: self.iana@,
            alarms: self.alarms@,
        }
    }

    /// `dtstamp`.
    pub fn dtstamp(&self) -> (r: &DateTimeStamp)
        ensures
            *r == self.parts().dtstamp,
    {
        &self.dtstamp
    }

    /// `uid`.
    pub fn uid(&self) -> (r: &Uid)
        ensures
            *r == self.parts().uid,
    {
        &self.uid
    }

    /// `class`, if set.
    pub fn class(&self) -> (r: Option<&Classification>)
        ensures
            match r {
                Some(x) => self.parts().class == Some(*x),
                None => self.parts().class is None,
            },
    {
        self.class.as_ref()
    }

    /// `completed`, if set.
    pub fn completed(&self) -> (r: Option<&Completed>)
        ensures
            match r {
                Some(x) => self.parts().completed == Some(*x),
                None => self.parts().completed is None,
            },
    {
        self.completed.as_ref()
    }

    /// `created`, if set.
    pub fn created(&self) -> (r: Option<&DateTimeCreated>)
        ensures
            match r {
                Some(x) => self.parts().created == Some(*x),
                None => self.parts().created is None,
            },
    {
        self.created.as_ref()
    }

    /// `description`, if set.
    pub fn description(&self) -> (r: Option<&Description>)
        ensures
            match r {
                Some(x) => self.parts().description == Some(*x),
                None => self.parts().description is None,
            },
    {
        self.description.as_ref()
    }

    /// `dtstart`, if set.
    pub fn dtstart(&self) -> (r: Option<&DateTimeStart>)
        ensures
            match r {
                Some(x) => self.parts().dtstart == Some(*x),
                None => self.parts().dtstart is None,
            },
    {
        self.dtstart.as_ref()
    }

    /// `geo`, if set.
    pub fn geo(&self) -> (r: Option<&Geo>)
        ensures
            match r {
                Some(x) => self.parts().geo == Some(*x),
                None => self.parts().geo is None,
            },
    {
        self.geo.as_ref()
    }

    /// `last_mod`, if set.
    pub fn last_mod(&self) -> (r: Option<&LastModified>)
        ensures
            match r {
                Some(x) => self.parts().last_mod == Some(*x),
                None => self.parts().last_mod is None,
            },
    {
        self.last_mod.as_ref()
    }

    /// `location`, if set.
    pub fn location(&self) -> (r: Option<&Location>)
        ensures
            match r {
                Some(x) => self.parts().location == Some(*x),
                None => self.parts().location is None,
            },
    {
        self.location.as_ref()
    }

    /// `organizer`, if set.
    pub fn organizer(&self) -> (r: Option<&Organizer>)
        ensures
            match r {
                Some(x) => self.parts().organizer == Some(*x),
                None => self.parts().organizer is None,
            },
    {
        self.organizer.as_ref()
    }

    /// `percent`, if set.
    pub fn percent(&self) -> (r: Option<&PercentComplete>)
        ensures
            match r {
                Some(x) => self.parts().percent == Some(*x),
                None => self.parts().percent is None,
            },
    {
        self.percent.as_ref()
    }

    /// `priority`, if set.
    pub fn priority(&self) -> (r: Option<&Priority>)
        ensures
            match r {
                Some(x) => self.parts().priority == Some(*x),
                None => self.parts().priority is None,
            },
    {
        self.priority.as_ref()
    }

    /// `recur_id`, if set.
    pub fn recur_id(&self) -> (r: Option<&RecurrenceId>)
        ensures
            match r {
                Some(x) => self.parts().recur_id == Some(*x),
                None => self.parts().recur_id is None,
            },
    {
        self.recur_id.as_ref()
    }

    /// `seq`, if set.
    pub fn seq(&self) -> (r: Option<&Sequence>)
        ensures
            match r {
                Some(x) => self.parts().seq == Some(*x),
                None => self.parts().seq is None,
            },
    {
        self.seq.as_ref()
    }

    /// `status`, if set.
    pub fn status(&self) -> (r: Option<&Status>)
        ensures
            match r {
                Some(x) => self.parts().status == Some(*x),
                None => self.parts().status is None,
            },
    {
        self.status.as_ref()
    }

    /// `summary`, if set.
    pub fn summary(&self) -> (r: Option<&Summary>)
        ensures
            match r {
                Some(x) => self.parts().summary == Some(*x),
                None => self.parts().summary is None,
            },
    {
        self.summary.as_ref()
    }

    /// `url`, if set.
    pub fn url(&self) -> (r: Option<&UniformResourceLocator>)
        ensures
            match r {
                Some(x) => self.parts().url == Some(*x),
                None => self.parts().url is None,
            },
    {
        self.url.as_ref()
    }

    /// `rrule`, if set.
    pub fn rrule(&self) -> (r: Option<&RRule>)
        ensures
            match r {
                Some(x) => self.parts().rrule == Some(*x),
                None => self.parts().rrule is None,
            },
    {
        self.rrule.as_ref()
    }

    /// `due`, if set.
    pub fn due(&self) -> (r: Option<&DateTimeDue>)
        ensures
            match r {
                Some(x) => self.parts().due == Some(*x),
                None => self.parts().due is None,
            },
    {
        self.due.as_ref()
    }

    /// `duration`, if set.
    pub fn duration(&self) -> (r: Option<&Duration>)
        ensures
            match r {
                Some(x) => self.parts().duration == Some(*x),
                None => self.parts().duration is None,
            },
    {
        self.duration.as_ref()
    }

    /// `attach`, in order.
    pub fn attach(&self) -> (r: &[Attachment])
        ensures
            r@ == self.parts().attach,
    {
        self.attach.as_slice()
    }

    /// `attendee`, in order.
    pub fn attendee(&self) -> (r: &[Attendee])
        ensures
            r@ == self.parts().attendee,
    {
        self.attendee.as_slice()
    }

    /// `categories`, in order.
    pub fn categories(&self) -> (r: &[Categories])
        ensures
            r@ == self.parts().categories,
    {
        self.categories.as_slice()
    }

    /// `comment`, in order.
    pub fn comment(&self) -> (r: &[Comment])
        ensures
            r@ == self.parts().comment,
    {
        self.comment.as_slice()
    }

    /// `contact`, in order.
    pub fn contact(&self) -> (r: &[Contact])
        ensures
            r@ == self.parts().contact,
    {
        self.contact.as_slice()
    }

    /// `exdate`, in order.
    pub fn exdate(&self) -> (r: &[ExceptionDateTimes])
        ensures
            r@ == self.parts().exdate,
    {
        self.exdate.as_slice()
    }

    /// `rstatus`, in order.
    pub fn rstatus(&self) -> (r: &[RequestStatus])
        ensures
            r@ == self.parts().rstatus,
    {
        self.rstatus.as_slice()
    }

    /// `related`, in order.
    pub fn related(&self) -> (r: &[RelatedTo])
        ensures
            r@ == self.parts().related,
    {
        self.related.as_slice()
    }

    /// `resources`, in order.
    pub fn resources(&self) -> (r: &[Resources])
        ensures
            r@ == self.parts().resources,
    {
        self.resources.as_slice()
    }

    /// `rdate`, in order.
    pub fn rdate(&self) -> (r: &[RecurrenceDateTimes])
        ensures
            r@ == self.parts().rdate,
    {
        self.rdate.as_slice()
    }

    /// `xprop`, in order.
    pub fn xprop(&self) -> (r: &[Xprop])
        ensures
            r@ == self.parts().xprop,
    {
        self.xprop.as_slice()
    }

    /// `iana`, in order.
    pub fn iana(&self) -> (r: &[Iana])
        ensures
            r@ == self.parts().iana,
    {
        self.iana.as_slice()
    }

    /// `alarms`, in order.
    pub fn alarms(&self) -> (r: &[Alarm])
        ensures
            r@ == self.parts().alarms,
    {
        self.alarms.as_slice()
    }

    /// `color`, if set.
    pub fn color(&self) -> (r: Option<&Color>)
        ensures
            match r {
                Some(x) => self.parts().color == Some(*x),
                None => self.parts().color is None,
            },
    {
        self.color.as_ref()
    }

    /// `image`, in order.
    pub fn image(&self) -> (r: &[Image])
        ensures
            r@ == self.parts().image,
    {
        self.image.as_slice()
    }

    /// `conference`, in order.
    pub fn conference(&self) -> (r: &[Conference])
        ensures
            r@ == self.parts().conference,
    {
        self.conference.as_slice()
    }

    fn write_lines_0(&self, out: &mut Vec<u8>)
        ensures
            final(out)@ == old(out)@ + todo_lines_0(self.parts()),
    {
        write_line(&self.dtstamp, out);
        write_line(&self.uid, out);
        write_opt_line(&self.class, out);
        write_opt_line(&self.completed, out);
        write_opt_line(&self.created, out);
        write_opt_line(&self.description, out);
        write_opt_line(&self.dtstart, out);
        write_opt_line(&self.geo, out);
        assert(out@ =~= old(out)@ + todo_lines_0(self.parts()));
    }

    fn write_lines_1(&self, out: &mut Vec<u8>)
        ensures
            final(out)@ == old(out)@ + todo_lines_1(self.parts()),
    {
        write_opt_line(&self.last_mod, out);
        write_opt_line(&self.location, out);
        write_opt_line(&self.organizer, out);
        write_opt_line(&self.percent, out);
        write_opt_line(&self.priority, out);
        write_opt_line(&self.recur_id, out);
        write_opt_line(&self.seq, out);
        write_opt_line(&self.status, out);
        assert(out@ =~= old(out)@ + todo_lines_1(self.parts()));
    }

    fn write_lines_2(&self, out: &mut Vec<u8>)
        ensures
            final(out)@ == old(out)@ + todo_lines_2(self.parts()),
    {
        write_opt_line(&self.summary, out);
        write_opt_line(&self.url, out);
        write_opt_line(&self.rrule, out);
        write_opt_line(&self.due, out);
        write_opt_line(&self.duration, out);
        write_lines(self.attach.as_slice(), out);
        write_lines(self.attendee.as_slice(), out);
        write_lines(self.categories.as_slice(), out);
        assert(out@ =~= old(out)@ + todo_lines_2(self.parts()));
    }

    fn write_lines_3(&self, out: &mut Vec<u8>)
        ensures
            final(out)@ == old(out)@ + todo_lines_3(self.parts()),
    {
        write_lines(self.comment.as_slice(), out);
        write_lines(self.contact.as_slice(), out);
        write_lines(self.exdate.as_slice(), out);
        write_lines(self.rstatus.as_slice(), out);
        write_lines(self.related.as_slice(), out);
        write_lines(self.resources.as_slice(), out);
        write_lines(self.rdate.as_slice(), out);
        write_opt_line(&self.color, out);
        assert(out@ =~= old(out)@ + todo_lines_3(self.parts()));
    }

    fn write_lines_4(&self, out: &mut Vec<u8>)
        ensures
            final(out)@ == old(out)@ + todo_lines_4(self.parts()),
    {
        write_lines(self.image.as_slice(), out);
        write_lines(self.conference.as_slice(), out);
        write_lines(self.xprop.as_slice(), out);
        write_lines(self.iana.as_slice(), out);
        write_blocks(self.alarms.as_slice(), out);
        assert(out@ =~= old(out)@ + todo_lines_4(self.parts()));
    }

    fn write_body(&self, out: &mut Vec<u8>)
        ensures
            final(out)@ == old(out)@ + todo_body(self.parts()),
    {
        reveal(todo_body);
        self.write_lines_0(out);
        self.write_lines_1(out);
        self.write_lines_2(out);
        self.write_lines_3(out);
        self.write_lines_4(out);
        assert(out@ =~= old(out)@ + todo_body(self.parts()));
    }
}

impl Ical for Todo {
    /// `BEGIN:VTODO`, a line for each property, each nested component, and
    /// `END:VTODO`.
    open spec fn ical(&self) -> Seq<u8> {
        delimiter("BEGIN:", "VTODO") + todo_body(self.parts()) + delimiter("END:", "VTODO")
    }

    proof fn lemma_ical_valid(&self) {
        lemma_delimiter_valid("BEGIN:", "VTODO");
        lemma_delimiter_valid("END:", "VTODO");
        lemma_todo_body_valid(self.parts());
        vstd::utf8::valid_utf8_concat(delimiter("BEGIN:", "VTODO"), todo_body(self.parts()));
        vstd::utf8::valid_utf8_concat(
            delimiter("BEGIN:", "VTODO") + todo_body(self.parts()),
            delimiter("END:", "VTODO"),
        );
    }

    fn write_to(&self, out: &mut Vec<u8>) {
        write_delimiter("BEGIN:", "VTODO", out);
        self.write_body(out);
        write_delimiter("END:", "VTODO", out);
        assert(out@ =~= old(out)@ + self.ical());
    }
}

/// What building a [`Todo`] checks, in order; the first failure is the outcome.
pub open spec fn todo_check(p: TodoParts) -> Result<(), ComponentError> {
    if p.duration is Some && p.dtstart is None {
        Err(ComponentError::Requires("DURATION", "DTSTART"))
    } else {
        match p.dtstart {
            Some(s) => start_checks(s, p.rrule, due_value(p.due), "DUE", p.exdate, p.rdate),
            None => Ok(()),
        }
    }
}

/// The state of a builder before either of its two mutually exclusive ends
/// has been set.
#[derive(Debug)]
pub struct Unset;

/// The state of a builder once `DUE` is set: `DURATION` can no longer be.
#[derive(Debug)]
pub struct HasDue;

/// The state of a builder once `DURATION` is set: the other end can no
/// longer be.
#[derive(Debug)]
pub struct HasDuration;

/// Builds a [`Todo`]; `DUE` and `DURATION` exclude each other by the
/// builder's state.
#[derive(Debug)]
pub struct TodoBuilder<S> {
    dtstamp: DateTimeStamp,
    uid: Uid,
    class: Option<Classification>,
    completed: Option<Completed>,
    created: Option<DateTimeCreated>,
    description: Option<Description>,
    dtstart: Option<DateTimeStart>,
    geo: Option<Geo>,
    last_mod: Option<LastModified>,
    location: Option<Location>,
    organizer: Option<Organizer>,
    percent: Option<PercentComplete>,
    priority: Option<Priority>,
    recur_id: Option<RecurrenceId>,
    seq: Option<Sequence>,
    status: Option<Status>,
    summary: Option<Summary>,
    url: Option<UniformResourceLocator>,
    rrule: Option<RRule>,
    due: Option<DateTimeDue>,
    duration: Option<Duration>,
    attach: Vec<Attachment>,
    attendee: Vec<Attendee>,
    categories: Vec<Categories>,
    comment: Vec<Comment>,
    contact: Vec<Contact>,
    exdate: Vec<ExceptionDateTimes>,
    rstatus: Vec<RequestStatus>,
    related: Vec<RelatedTo>,
    resources: Vec<Resources>,
    rdate: Vec<RecurrenceDateTimes>,
    color: Option<Color>,
    image: Vec<Image>,
    conference: Vec<Conference>,
    xprop: Vec<Xprop>,
    iana: Vec<Iana>,
    alarms: Vec<Alarm>,
    _state: PhantomData<S>,
}

impl<S> TodoBuilder<S> {
    /// The properties held.
    pub closed spec fn parts(&self) -> TodoParts {
        TodoParts {
            dtstamp: self.dtstamp,
            uid: self.uid,
            class: self.class,
            completed: self.completed,
            created: self.created,
            description: self.description,
            dtstart: self.dtstart,
            geo: self.geo,
            last_mod: self.last_mod,
            location: self.location,
            organizer: self.organizer,
            percent: self.percent,
            priority: self.priority,
            recur_id: self.recur_id,
            seq: self.seq,
            status: self.status,
            summary: self.summary,
            url: self.url,
            rrule: self.rrule,
            due: self.due,
            duration: self.duration,
            attach: self.attach@,
            attendee: self.attendee@,
            categories: self.categories@,
            comment: self.comment@,
            contact: self.contact@,
            exdate: self.exdate@,
            rstatus: self.rstatus@,
            related: self.related@,
            resources: self.resources@,
            rdate: self.rdate@,
            color: self.color,
            image: self.image@,
            conference: self.conference@,
            xprop: self.xprop@,
            iana: self.iana@,
            alarms: self.alarms@,
        }
    }

    /// The same properties, in another state.
    fn retag<S2>(self) -> (r: TodoBuilder<S2>)
        ensures
            r.parts() == self.parts(),
    {
        TodoBuilder {
            dtstamp: self.dtstamp,
            uid: self.uid,
            class: self.class,
            completed: self.completed,
            created: self.created,
            description: self.description,
            dtstart: self.dtstart,
            geo: self.geo,
            last_mod: self.last_mod,
            location: self.location,
            organizer: self.organizer,
            percent: self.percent,
            priority: self.priority,
            recur_id: self.recur_id,
            seq: self.seq,
            status: self.status,
            summary: self.summary,
            url: self.url,
            rrule: self.rrule,
            due: self.due,
            duration: self.duration,
            attach: self.attach,
            attendee: self.attendee,
            categories: self.categories,
            comment: self.comment,
            contact: self.contact,
            exdate: self.exdate,
            rstatus: self.rstatus,
            related: self.related,
            resources: self.resources,
            rdate: self.rdate,
            color: self.color,
            image: self.image,
            conference: self.conference,
            xprop: self.xprop,
            iana: self.iana,
            alarms: self.alarms,
            _state: PhantomData,
        }
    }

    /// Sets `class`.
    pub fn class(self, v: Classification) -> (r: TodoBuilder<S>)
        ensures
            r.parts() == (TodoParts { class: Some(v), ..self.parts() }),
    {
        let mut b = self;
        b.class = Some(v);
        b
    }

    /// Sets `completed`.
    pub fn completed(self, v: Completed) -> (r: TodoBuilder<S>)
        ensures
            r.parts() == (TodoParts { completed: Some(v), ..self.parts() }),
    {
        let mut b = self;
        b.completed = Some(v);
        b
    }

    /// Sets `created`.
    pub fn created(self, v: DateTimeCreated) -> (r: TodoBuilder<S>)
        ensures
            r.parts() == (TodoParts { created: Some(v), ..self.parts() }),
    {
        let mut b = self;
        b.created = Some(v);
        b
    }

    /// Sets `description`.
    pub fn description(self, v: Description) -> (r: TodoBuilder<S>)
        ensures
            r.parts() == (TodoParts { description: Some(v), ..self.parts() }),
    {
        let mut b = self;
        b.description = Some(v);
        b
    }

    /// Sets `dtstart`.
    pub fn dtstart(self, v: DateTimeStart) -> (r: TodoBuilder<S>)
        ensures
            r.parts() == (TodoParts { dtstart: Some(v), ..self.parts() }),
    {
        let mut b = self;
        b.dtstart = Some(v);
        b
    }

    /// Sets `geo`.
    pub fn geo(self, v: Geo) -> (r: TodoBuilder<S>)
        ensures
            r.parts() == (TodoParts { geo: Some(v), ..self.parts() }),
    {
        let mut b = self;
        b.geo = Some(v);
        b
    }

    /// Sets `last_mod`.
    pub fn last_mod(self, v: LastModified) -> (r: TodoBuilder<S>)
        ensures
            r.parts() == (TodoParts { last_mod: Some(v), ..self.parts() }),
    {
        let mut b = self;
        b.last_mod = Some(v);
        b
    }

    /// Sets `location`.
    pub fn location(self, v: Location) -> (r: TodoBuilder<S>)
        ensures
            r.parts() == (TodoParts { location: Some(v), ..self.parts() }),
    {
        let mut b = self;
        b.location = Some(v);
        b
    }

    /// Sets `organizer`.
    pub fn organizer(self, v: Organizer) -> (r: TodoBuilder<S>)
        ensures
            r.parts() == (TodoParts { organizer: Some(v), ..self.parts() }),
    {
        let mut b = self;
        b.organizer = Some(v);
        b
    }

    /// Sets `percent`.
    pub fn percent(self, v: PercentComplete) -> (r: TodoBuilder<S>)
        ensures
            r.parts() == (TodoParts { percent: Some(v), ..self.parts() }),
    {
        let mut b = self;
        b.percent = Some(v);
        b
    }

    /// Sets `priority`.
    pub fn priority(self, v: Priority) -> (r: TodoBuilder<S>)
        ensures
            r.parts() == (TodoParts { priority: Some(v), ..self.parts() }),
    {
        let mut b = self;
        b.priority = Some(v);
        b
    }

    /// Sets `recur_id`.
    pub fn recur_id(self, v: RecurrenceId) -> (r: TodoBuilder<S>)
        ensures
            r.parts() == (TodoParts { recur_id: Some(v), ..self.parts() }),
    {
        let mut b = self;
        b.recur_id = Some(v);
        b
    }

    /// Sets `seq`.
    pub fn seq(self, v: Sequence) -> (r: TodoBuilder<S>)
        ensures
            r.parts() == (TodoParts { seq: Some(v), ..self.parts() }),
    {
        let mut b = self;
        b.seq = Some(v);
        b
    }

    /// Sets `status`.
    pub fn status(self, v: Status) -> (r: TodoBuilder<S>)
        ensures
            r.parts() == (TodoParts { status: Some(v), ..self.parts() }),
    {
        let mut b = self;
        b.status = Some(v);
        b
    }

    /// Sets `summary`.
    pub fn summary(self, v: Summary) -> (r: TodoBuilder<S>)
        ensures
            r.parts() == (TodoParts { summary: Some(v), ..self.parts() }),
    {
        let mut b = self;
        b.summary = Some(v);
        b
    }

    /// Sets `url`.
    pub fn url(self, v: UniformResourceLocator) -> (r: TodoBuilder<S>)
        ensures
            r.parts() == (TodoParts { url: Some(v), ..self.parts() }),
    {
        let mut b = self;
        b.url = Some(v);
        b
    }

    /// Sets `rrule`.
    pub fn rrule(self, v: RRule) -> (r: TodoBuilder<S>)
        ensures
            r.parts() == (TodoParts { rrule: Some(v), ..self.parts() }),
    {
        let mut b = self;
        b.rrule = Some(v);
        b
    }

    /// Adds a `attach`.
    pub fn attach(self, v: Attachment) -> (r: TodoBuilder<S>)
        ensures
            r.parts() == (TodoParts { attach: self.parts().attach.push(v), ..self.parts() }),
    {
        let mut b = self;
        b.attach.push(v);
        b
    }

    /// Adds a `attendee`.
    pub fn attendee(self, v: Attendee) -> (r: TodoBuilder<S>)
        ensures
            r.parts() == (TodoParts { attendee: self.parts().attendee.push(v), ..self.parts() }),
    {
        let mut b = self;
        b.attendee.push(v);
        b
    }

    /// Adds a `categories`.
    pub fn categories(self, v: Categories) -> (r: TodoBuilder<S>)
        ensures
            r.parts() == (TodoParts { categories: self.parts().categories.push(v), ..self.parts() }),
    {
        let mut b = self;
        b.categories.push(v);
        b
    }

    /// Adds a `comment`.
    pub fn comment(self, v: Comment) -> (r: TodoBuilder<S>)
        ensures
            r.parts() == (TodoParts { comment: self.parts().comment.push(v), ..self.parts() }),
    {
        let mut b = self;
        b.comment.push(v);
        b
    }

    /// Adds a `contact`.
    pub fn contact(self, v: Contact) -> (r: TodoBuilder<S>)
        ensures
            r.parts() == (TodoParts { contact: self.parts().contact.push(v), ..self.parts() }),
    {
        let mut b = self;
        b.contact.push(v);
        b
    }

    /// Adds a `exdate`.
    pub fn exdate(self, v: ExceptionDateTimes) -> (r: TodoBuilder<S>)
        ensures
            r.parts() == (TodoParts { exdate: self.parts().exdate.push(v), ..self.parts() }),
    {
        let mut b = self;
        b.exdate.push(v);
        b
    }

    /// Adds a `rstatus`.
    pub fn rstatus(self, v: RequestStatus) -> (r: TodoBuilder<S>)
        ensures
            r.parts() == (TodoParts { rstatus: self.parts().rstatus.push(v), ..self.parts() }),
    {
        let mut b = self;
        b.rstatus.push(v);
        b
    }

    /// Adds a `related`.
    pub fn related(self, v: RelatedTo) -> (r: TodoBuilder<S>)
        ensures
            r.parts() == (TodoParts { related: self.parts().related.push(v), ..self.parts() }),
    {
        let mut b = self;
        b.related.push(v);
        b
    }

    /// Adds a `resources`.
    pub fn resources(self, v: Resources) -> (r: TodoBuilder<S>)
        ensures
            r.parts() == (TodoParts { resources: self.parts().resources.push(v), ..self.parts() }),
    {
        let mut b = self;
        b.resources.push(v);
        b
    }

    /// Adds a `rdate`.
    pub fn rdate(self, v: RecurrenceDateTimes) -> (r: TodoBuilder<S>)
        ensures
            r.parts() == (TodoParts { rdate: self.parts().rdate.push(v), ..self.parts() }),
    {
        let mut b = self;
        b.rdate.push(v);
        b
    }

    /// Sets `color`.
    pub fn color(self, v: Color) -> (r: TodoBuilder<S>)
        ensures
            r.parts() == (TodoParts { color: Some(v), ..self.parts() }),
    {
        let mut b = self;
        b.color = Some(v);
        b
    }

    /// Adds a `image`.
    pub fn image(self, v: Image) -> (r: TodoBuilder<S>)
        ensures
            r.parts() == (TodoParts { image: self.parts().image.push(v), ..self.parts() }),
    {
        let mut b = self;
        b.image.push(v);
        b
    }

    /// Adds a `conference`.
    pub fn conference(self, v: Conference) -> (r: TodoBuilder<S>)
        ensures
            r.parts() == (TodoParts { conference: self.parts().conference.push(v), ..self.parts() }),
    {
        let mut b = self;
        b.conference.push(v);
        b
    }

    /// Adds a `xprop`.
    pub fn xprop(self, v: Xprop) -> (r: TodoBuilder<S>)
        ensures
            r.parts() == (TodoParts { xprop: self.parts().xprop.push(v), ..self.parts() }),
    {
        let mut b = self;
        b.xprop.push(v);
        b
    }

    /// Adds a `iana`.
    pub fn iana(self, v: Iana) -> (r: TodoBuilder<S>)
        ensures
            r.parts() == (TodoParts { iana: self.parts().iana.push(v), ..self.parts() }),
    {
        let mut b = self;
        b.iana.push(v);
        b
    }

    /// Adds a `alarms`.
    pub fn alarm(self, v: Alarm) -> (r: TodoBuilder<S>)
        ensures
            r.parts() == (TodoParts { alarms: self.parts().alarms.push(v), ..self.parts() }),
    {
        let mut b = self;
        b.alarms.push(v);
        b
    }

    /// Checks the rules that hold between the properties, and builds the
    /// component.
    pub fn build(self) -> (r: Result<Todo, ComponentError>)
        ensures
            r is Ok <==> todo_check(self.parts()) is Ok,
            r matches Err(e) ==> todo_check(self.parts()) == Err::<(), ComponentError>(e),
            r matches Ok(c) ==> c.parts() == self.parts(),
    {
        if self.duration.is_some() && self.dtstart.is_none() {
            return Err(ComponentError::Requires("DURATION", "DTSTART"));
        }
        let due = match &self.due {
            Some(e) => Some(e.value()),
            None => None,
        };
        if let Some(s) = &self.dtstart {
            if let Err(e) = check_start(s, self.rrule.as_ref(), due, "DUE", self.exdate.as_slice(), self.rdate.as_slice()) {
                return Err(e);
            }
        }
        Ok(
            Todo {
                dtstamp: self.dtstamp,
                uid: self.uid,
                class: self.class,
                completed: self.completed,
                created: self.created,
                description: self.description,
                dtstart: self.dtstart,
                geo: self.geo,
                last_mod: self.last_mod,
                location: self.location,
                organizer: self.organizer,
                percent: self.percent,
                priority: self.priority,
                recur_id: self.recur_id,
                seq: self.seq,
                status: self.status,
                summary: self.summary,
                url: self.url,
                rrule: self.rrule,
                due: self.due,
                duration: self.duration,
                attach: self.attach,
                attendee: self.attendee,
                categories: self.categories,
                comment: self.comment,
                contact: self.contact,
                exdate: self.exdate,
                rstatus: self.rstatus,
                related: self.related,
                resources: self.resources,
                rdate: self.rdate,
                color: self.color,
                image: self.image,
                conference: self.conference,
                xprop: self.xprop,
                iana: self.iana,
                alarms: self.alarms,
            }
        )
    }
}

impl TodoBuilder<Unset> {
    /// A builder with the two properties a to-do always requires.
    pub fn new(dtstamp: DateTimeStamp, uid: Uid) -> (r: TodoBuilder<Unset>)
        ensures
            r.parts() == (TodoParts { dtstamp, uid, class: None, completed: None, created: None, description: None, dtstart: None, geo: None, last_mod: None, location: None, organizer: None, percent: None, priority: None, recur_id: None, seq: None, status: None, summary: None, url: None, rrule: None, due: None, duration: None, attach: Seq::empty(), attendee: Seq::empty(), categories: Seq::empty(), comment: Seq::empty(), contact: Seq::empty(), exdate: Seq::empty(), rstatus: Seq::empty(), related: Seq::empty(), resources: Seq::empty(), rdate: Seq::empty(), color: None, image: Seq::empty(), conference: Seq::empty(), xprop: Seq::empty(), iana: Seq::empty(), alarms: Seq::empty() }),
    {
        TodoBuilder {
            dtstamp,
            uid,
            class: None,
            completed: None,
            created: None,
            description: None,
            dtstart: None,
            geo: None,
            last_mod: None,
            location: None,
            organizer: None,
            percent: None,
            priority: None,
            recur_id: None,
            seq: None,
            status: None,
            summary: None,
            url: None,
            rrule: None,
            due: None,
            duration: None,
            attach: Vec::new(),
            attendee: Vec::new(),
            categories: Vec::new(),
            comment: Vec::new(),
            contact: Vec::new(),
            exdate: Vec::new(),
            rstatus: Vec::new(),
            related: Vec::new(),
            resources: Vec::new(),
            rdate: Vec::new(),
            color: None,
            image: Vec::new(),
            conference: Vec::new(),
            xprop: Vec::new(),
            iana: Vec::new(),
            alarms: Vec::new(),
            _state: PhantomData,
        }
    }

    /// Sets `due`, which rules out the other end of the component.
    pub fn due(self, v: DateTimeDue) -> (r: TodoBuilder<HasDue>)
        ensures
            r.parts() == (TodoParts { due: Some(v), ..self.parts() }),
    {
        let mut b: TodoBuilder<HasDue> = self.retag();
        b.due = Some(v);
        b
    }

    /// Sets `duration`, which rules out the other end of the component.
    pub fn duration(self, v: Duration) -> (r: TodoBuilder<HasDuration>)
        ensures
            r.parts() == (TodoParts { duration: Some(v), ..self.parts() }),
    {
        let mut b: TodoBuilder<HasDuration> = self.retag();
        b.duration = Some(v);
        b
    }
}


/// The properties of a [`TodoParseBuilder`], as values.
pub ghost struct TodoParseParts {
    /// `dtstamp`.
    pub dtstamp: Option<DateTimeStamp>,
    /// `uid`.
    pub uid: Option<Uid>,
    /// `class`.
    pub class: Option<Classification>,
    /// `completed`.
    pub completed: Option<Completed>,
    /// `created`.
    pub created: Option<DateTimeCreated>,
    /// `description`.
    pub description: Option<Description>,
    /// `dtstart`.
    pub dtstart: Option<DateTimeStart>,
    /// `geo`.
    pub geo: Option<Geo>,
    /// `last_mod`.
    pub last_mod: Option<LastModified>,
    /// `location`.
    pub location: Option<Location>,
    /// `organizer`.
    pub organizer: Option<Organizer>,
    /// `percent`.
    pub percent: Option<PercentComplete>,
    /// `priority`.
    pub priority: Option<Priority>,
    /// `recur_id`.
    pub recur_id: Option<RecurrenceId>,
    /// `seq`.
    pub seq: Option<Sequence>,
    /// `status`.
    pub status: Option<Status>,
    /// `summary`.
    pub summary: Option<Summary>,
    /// `url`.
    pub url: Option<UniformResourceLocator>,
    /// `rrule`.
    pub rrule: Option<RRule>,
    /// `due`.
    pub due: Option<DateTimeDue>,
    /// `duration`.
    pub duration: Option<Duration>,
    /// `attach`.
    pub attach: Seq<Attachment>,
    /// `attendee`.
    pub attendee: Seq<Attendee>,
    /// `categories`.
    pub categories: Seq<Categories>,
    /// `comment`.
    pub comment: Seq<Comment>,
    /// `contact`.
    pub contact: Seq<Contact>,
    /// `exdate`.
    pub exdate: Seq<ExceptionDateTimes>,
    /// `rstatus`.
    pub rstatus: Seq<RequestStatus>,
    /// `related`.
    pub related: Seq<RelatedTo>,
    /// `resources`.
    pub resources: Seq<Resources>,
    /// `rdate`.
    pub rdate: Seq<RecurrenceDateTimes>,
    /// `color`.
    pub color: Option<Color>,
    /// `image`.
    pub image: Seq<Image>,
    /// `conference`.
    pub conference: Seq<Conference>,
    /// `xprop`.
    pub xprop: Seq<Xprop>,
    /// `iana`.
    pub iana: Seq<Iana>,
    /// `alarms`.
    pub alarms: Seq<Alarm>,
}

/// Collects the content lines of a component being read, in the order
/// they come, and builds it at its end.
#[derive(Debug)]
pub struct TodoParseBuilder {
    dtstamp: Option<DateTimeStamp>,
    uid: Option<Uid>,
    class: Option<Classification>,
    completed: Option<Completed>,
    created: Option<DateTimeCreated>,
    description: Option<Description>,
    dtstart: Option<DateTimeStart>,
    geo: Option<Geo>,
    last_mod: Option<LastModified>,
    location: Option<Location>,
    organizer: Option<Organizer>,
    percent: Option<PercentComplete>,
    priority: Option<Priority>,
    recur_id: Option<RecurrenceId>,
    seq: Option<Sequence>,
    status: Option<Status>,
    summary: Option<Summary>,
    url: Option<UniformResourceLocator>,
    rrule: Option<RRule>,
    due: Option<DateTimeDue>,
    duration: Option<Duration>,
    attach: Vec<Attachment>,
    attendee: Vec<Attendee>,
    categories: Vec<Categories>,
    comment: Vec<Comment>,
    contact: Vec<Contact>,
    exdate: Vec<ExceptionDateTimes>,
    rstatus: Vec<RequestStatus>,
    related: Vec<RelatedTo>,
    resources: Vec<Resources>,
    rdate: Vec<RecurrenceDateTimes>,
    color: Option<Color>,
    image: Vec<Image>,
    conference: Vec<Conference>,
    xprop: Vec<Xprop>,
    iana: Vec<Iana>,
    alarms: Vec<Alarm>,
}

/// What reading the property `p` does to the properties `q` collected so
/// far: a property held once may not come twice, one held many times is
/// added, and one the component doesn't hold is refused.
#[verifier::opaque]
pub open spec fn todo_ingest(q: TodoParseParts, p: Property) -> Result<TodoParseParts, PropertyError> {
    match p {
        Property::DateTimeStamp(x) => if q.dtstamp is Some {
            Err(PropertyError::DuplicateProperty("DTSTAMP"))
        } else {
            Ok(TodoParseParts { dtstamp: Some(x), ..q })
        },
        Property::Uid(x) => if q.uid is Some {
            Err(PropertyError::DuplicateProperty("UID"))
        } else {
            Ok(TodoParseParts { uid: Some(x), ..q })
        },
        Property::Classification(x) => if q.class is Some {
            Err(PropertyError::DuplicateProperty("CLASS"))
        } else {
            Ok(TodoParseParts { class: Some(x), ..q })
        },
        Property::Completed(x) => if q.completed is Some {
            Err(PropertyError::DuplicateProperty("COMPLETED"))
        } else {
            Ok(TodoParseParts { completed: Some(x), ..q })
        },
        Property::DateTimeCreated(x) => if q.created is Some {
            Err(PropertyError::DuplicateProperty("CREATED"))
        } else {
            Ok(TodoParseParts { created: Some(x), ..q })
        },
        Property::Description(x) => if q.description is Some {
            Err(PropertyError::DuplicateProperty("DESCRIPTION"))
        } else {
            Ok(TodoParseParts { description: Some(x), ..q })
        },
        Property::DateTimeStart(x) => if q.dtstart is Some {
            Err(PropertyError::DuplicateProperty("DTSTART"))
        } else {
            Ok(TodoParseParts { dtstart: Some(x), ..q })
        },
        Property::Geo(x) => if q.geo is Some {
            Err(PropertyError::DuplicateProperty("GEO"))
        } else {
            Ok(TodoParseParts { geo: Some(x), ..q })
        },
        Property::LastModified(x) => if q.last_mod is Some {
            Err(PropertyError::DuplicateProperty("LAST-MODIFIED"))
        } else {
            Ok(TodoParseParts { last_mod: Some(x), ..q })
        },
        Property::Location(x) => if q.location is Some {
            Err(PropertyError::DuplicateProperty("LOCATION"))
        } else {
            Ok(TodoParseParts { location: Some(x), ..q })
        },
        Property::Organizer(x) => if q.organizer is Some {
            Err(PropertyError::DuplicateProperty("ORGANIZER"))
        } else {
            Ok(TodoParseParts { organizer: Some(x), ..q })
        },
        Property::PercentComplete(x) => if q.percent is Some {
            Err(PropertyError::DuplicateProperty("PERCENT-COMPLETE"))
        } else {
            Ok(TodoParseParts { percent: Some(x), ..q })
        },
        Property::Priority(x) => if q.priority is Some {
            Err(PropertyError::DuplicateProperty("PRIORITY"))
        } else {
            Ok(TodoParseParts { priority: Some(x), ..q })
        },
        Property::RecurrenceId(x) => if q.recur_id is Some {
            Err(PropertyError::DuplicateProperty("RECURRENCE-ID"))
        } else {
            Ok(TodoParseParts { recur_id: Some(x), ..q })
        },
        Property::Sequence(x) => if q.seq is Some {
            Err(PropertyError::DuplicateProperty("SEQUENCE"))
        } else {
            Ok(TodoParseParts { seq: Some(x), ..q })
        },
        Property::Status(x) => if q.status is Some {
            Err(PropertyError::DuplicateProperty("STATUS"))
        } else {
            Ok(TodoParseParts { status: Some(x), ..q })
        },
        Property::Summary(x) => if q.summary is Some {
            Err(PropertyError::DuplicateProperty("SUMMARY"))
        } else {
            Ok(TodoParseParts { summary: Some(x), ..q })
        },
        Property::UniformResourceLocator(x) => if q.url is Some {
            Err(PropertyError::DuplicateProperty("URL"))
        } else {
            Ok(TodoParseParts { url: Some(x), ..q })
        },
        Property::RRule(x) => if q.rrule is Some {
            Err(PropertyError::DuplicateProperty("RRULE"))
        } else {
            Ok(TodoParseParts { rrule: Some(x), ..q })
        },
        Property::DateTimeDue(x) => if q.due is Some {
            Err(PropertyError::DuplicateProperty("DUE"))
        } else {
            Ok(TodoParseParts { due: Some(x), ..q })
        },
        Property::Duration(x) => if q.duration is Some {
            Err(PropertyError::DuplicateProperty("DURATION"))
        } else {
            Ok(TodoParseParts { duration: Some(x), ..q })
        },
        Property::Attachment(x) => Ok(TodoParseParts { attach: q.attach.push(x), ..q }),
        Property::Attendee(x) => Ok(TodoParseParts { attendee: q.attendee.push(x), ..q }),
        Property::Categories(x) => Ok(TodoParseParts { categories: q.categories.push(x), ..q }),
        Property::Comment(x) => Ok(TodoParseParts { comment: q.comment.push(x), ..q }),
        Property::Contact(x) => Ok(TodoParseParts { contact: q.contact.push(x), ..q }),
        Property::ExceptionDateTimes(x) => Ok(TodoParseParts { exdate: q.exdate.push(x), ..q }),
        Property::RequestStatus(x) => Ok(TodoParseParts { rstatus: q.rstatus.push(x), ..q }),
        Property::RelatedTo(x) => Ok(TodoParseParts { related: q.related.push(x), ..q }),
        Property::Resources(x) => Ok(TodoParseParts { resources: q.resources.push(x), ..q }),
        Property::RecurrenceDateTimes(x) => Ok(TodoParseParts { rdate: q.rdate.push(x), ..q }),
        Property::Color(x) => if q.color is Some {
            Err(PropertyError::DuplicateProperty("COLOR"))
        } else {
            Ok(TodoParseParts { color: Some(x), ..q })
        },
        Property::Image(x) => Ok(TodoParseParts { image: q.image.push(x), ..q }),
        Property::Conference(x) => Ok(TodoParseParts { conference: q.conference.push(x), ..q }),
        Property::Xprop(x) => Ok(TodoParseParts { xprop: q.xprop.push(x), ..q }),
        Property::Iana(x) => Ok(TodoParseParts { iana: q.iana.push(x), ..q }),
        _ => Err(PropertyError::UnexpectedProperty),
    }
}

/// The properties `props` read one after the other into an empty
/// [`TodoParseBuilder`], or the first refusal.
pub open spec fn todo_fold(props: Seq<Property>) -> Result<TodoParseParts, PropertyError>
    decreases props.len(),
{
    if props.len() == 0 {
        Ok(TodoParseBuilder::empty_parts())
    } else {
        match todo_fold(props.drop_last()) {
            Ok(q) => todo_ingest(q, props.last()),
            Err(e) => Err(e),
        }
    }
}

/// Reading a property doesn't look at, nor touch, the nested components.
pub proof fn lemma_todo_ingest_nested(q: TodoParseParts, p: Property, alarms: Seq<Alarm>)
    ensures
        todo_ingest(TodoParseParts { alarms: alarms, ..q }, p) == match todo_ingest(q, p) {
            Ok(q2) => Ok(TodoParseParts { alarms: alarms, ..q2 }),
            Err(e) => Err(e),
        },
{
    reveal(todo_ingest);
}

/// The properties `q` holds, once those it requires are there.
pub open spec fn todo_parts_of(q: TodoParseParts) -> TodoParts {
    TodoParts {
        dtstamp: q.dtstamp->0,
        uid: q.uid->0,
        class: q.class,
        completed: q.completed,
        created: q.created,
        description: q.description,
        dtstart: q.dtstart,
        geo: q.geo,
        last_mod: q.last_mod,
        location: q.location,
        organizer: q.organizer,
        percent: q.percent,
        priority: q.priority,
        recur_id: q.recur_id,
        seq: q.seq,
        status: q.status,
        summary: q.summary,
        url: q.url,
        rrule: q.rrule,
        due: q.due,
        duration: q.duration,
        attach: q.attach,
        attendee: q.attendee,
        categories: q.categories,
        comment: q.comment,
        contact: q.contact,
        exdate: q.exdate,
        rstatus: q.rstatus,
        related: q.related,
        resources: q.resources,
        rdate: q.rdate,
        color: q.color,
        image: q.image,
        conference: q.conference,
        xprop: q.xprop,
        iana: q.iana,
        alarms: q.alarms,
    }
}

/// The first property `q` requires and lacks, if any.
pub open spec fn todo_missing(q: TodoParseParts) -> Option<&'static str> {
    if q.dtstamp is None {
        Some("DTSTAMP")
    } else if q.uid is None {
        Some("UID")
    } else {
        None
    }
}

impl TodoParseBuilder {
    /// The properties collected.
    pub closed spec fn parts(&self) -> TodoParseParts {
        TodoParseParts {
            dtstamp: self.dtstamp,
            uid: self.uid,
            class: self.class,
            completed: self.completed,
            created: self.created,
            description: self.description,
            dtstart: self.dtstart,
            geo: self.geo,
            last_mod: self.last_mod,
            location: self.location,
            organizer: self.organizer,
            percent: self.percent,
            priority: self.priority,
            recur_id: self.recur_id,
            seq: self.seq,
            status: self.status,
            summary: self.summary,
            url: self.url,
            rrule: self.rrule,
            due: self.due,
            duration: self.duration,
            attach: self.attach@,
            attendee: self.attendee@,
            categories: self.categories@,
            comment: self.comment@,
            contact: self.contact@,
            exdate: self.exdate@,
            rstatus: self.rstatus@,
            related: self.related@,
            resources: self.resources@,
            rdate: self.rdate@,
            color: self.color,
            image: self.image@,
            conference: self.conference@,
            xprop: self.xprop@,
            iana: self.iana@,
            alarms: self.alarms@,
        }
    }

    /// Nothing collected yet.
    pub open spec fn empty_parts() -> TodoParseParts {
        TodoParseParts {
            dtstamp: None,
            uid: None,
            class: None,
            completed: None,
            created: None,
            description: None,
            dtstart: None,
            geo: None,
            last_mod: None,
            location: None,
            organizer: None,
            percent: None,
            priority: None,
            recur_id: None,
            seq: None,
            status: None,
            summary: None,
            url: None,
            rrule: None,
            due: None,
            duration: None,
            attach: Seq::empty(),
            attendee: Seq::empty(),
            categories: Seq::empty(),
            comment: Seq::empty(),
            contact: Seq::empty(),
            exdate: Seq::empty(),
            rstatus: Seq::empty(),
            related: Seq::empty(),
            resources: Seq::empty(),
            rdate: Seq::empty(),
            color: None,
            image: Seq::empty(),
            conference: Seq::empty(),
            xprop: Seq::empty(),
            iana: Seq::empty(),
            alarms: Seq::empty(),
        }
    }

    /// A component with nothing collected yet.
    pub fn new() -> (r: TodoParseBuilder)
        ensures
            r.parts() == TodoParseBuilder::empty_parts(),
    {
        TodoParseBuilder {
            dtstamp: None,
            uid: None,
            class: None,
            completed: None,
            created: None,
            description: None,
            dtstart: None,
            geo: None,
            last_mod: None,
            location: None,
            organizer: None,
            percent: None,
            priority: None,
            recur_id: None,
            seq: None,
            status: None,
            summary: None,
            url: None,
            rrule: None,
            due: None,
            duration: None,
            attach: Vec::new(),
            attendee: Vec::new(),
            categories: Vec::new(),
            comment: Vec::new(),
            contact: Vec::new(),
            exdate: Vec::new(),
            rstatus: Vec::new(),
            related: Vec::new(),
            resources: Vec::new(),
            rdate: Vec::new(),
            color: None,
            image: Vec::new(),
            conference: Vec::new(),
            xprop: Vec::new(),
            iana: Vec::new(),
            alarms: Vec::new(),
        }
    }

    /// Reads one property into the component.
    pub fn ingest(&mut self, p: Property) -> (r: Result<(), PropertyError>)
        ensures
            match todo_ingest(old(self).parts(), p) {
                Ok(q) => r is Ok && final(self).parts() == q,
                Err(e) => r == Err::<(), PropertyError>(e) && final(self).parts() == old(self).parts(),
            },
            final(self).parts().alarms == old(self).parts().alarms,
    {
        reveal(todo_ingest);
        match p {
            Property::DateTimeStamp(x) => {
                if self.dtstamp.is_some() {
                    return Err(PropertyError::DuplicateProperty("DTSTAMP"));
                }
                self.dtstamp = Some(x);
                Ok(())
            },
            Property::Uid(x) => {
                if self.uid.is_some() {
                    return Err(PropertyError::DuplicateProperty("UID"));
                }
                self.uid = Some(x);
                Ok(())
            },
            Property::Classification(x) => {
                if self.class.is_some() {
                    return Err(PropertyError::DuplicateProperty("CLASS"));
                }
                self.class = Some(x);
                Ok(())
            },
            Property::Completed(x) => {
                if self.completed.is_some() {
                    return Err(PropertyError::DuplicateProperty("COMPLETED"));
                }
                self.completed = Some(x);
                Ok(())
            },
            Property::DateTimeCreated(x) => {
                if self.created.is_some() {
                    return Err(PropertyError::DuplicateProperty("CREATED"));
                }
                self.created = Some(x);
                Ok(())
            },
            Property::Description(x) => {
                if self.description.is_some() {
                    return Err(PropertyError::DuplicateProperty("DESCRIPTION"));
                }
                self.description = Some(x);
                Ok(())
            },
            Property::DateTimeStart(x) => {
                if self.dtstart.is_some() {
                    return Err(PropertyError::DuplicateProperty("DTSTART"));
                }
                self.dtstart = Some(x);
                Ok(())
            },
            Property::Geo(x) => {
                if self.geo.is_some() {
                    return Err(PropertyError::DuplicateProperty("GEO"));
                }
                self.geo = Some(x);
                Ok(())
            },
            Property::LastModified(x) => {
                if self.last_mod.is_some() {
                    return Err(PropertyError::DuplicateProperty("LAST-MODIFIED"));
                }
                self.last_mod = Some(x);
                Ok(())
            },
            Property::Location(x) => {
                if self.location.is_some() {
                    return Err(PropertyError::DuplicateProperty("LOCATION"));
                }
                self.location = Some(x);
                Ok(())
            },
            Property::Organizer(x) => {
                if self.organizer.is_some() {
                    return Err(PropertyError::DuplicateProperty("ORGANIZER"));
                }
                self.organizer = Some(x);
                Ok(())
            },
            Property::PercentComplete(x) => {
                if self.percent.is_some() {
                    return Err(PropertyError::DuplicateProperty("PERCENT-COMPLETE"));
                }
                self.percent = Some(x);
                Ok(())
            },
            Property::Priority(x) => {
                if self.priority.is_some() {
                    return Err(PropertyError::DuplicateProperty("PRIORITY"));
                }
                self.priority = Some(x);
                Ok(())
            },
            Property::RecurrenceId(x) => {
                if self.recur_id.is_some() {
                    return Err(PropertyError::DuplicateProperty("RECURRENCE-ID"));
                }
                self.recur_id = Some(x);
                Ok(())
            },
            Property::Sequence(x) => {
                if self.seq.is_some() {
                    return Err(PropertyError::DuplicateProperty("SEQUENCE"));
                }
                self.seq = Some(x);
                Ok(())
            },
            Property::Status(x) => {
                if self.status.is_some() {
                    return Err(PropertyError::DuplicateProperty("STATUS"));
                }
                self.status = Some(x);
                Ok(())
            },
            Property::Summary(x) => {
                if self.summary.is_some() {
                    return Err(PropertyError::DuplicateProperty("SUMMARY"));
                }
                self.summary = Some(x);
                Ok(())
            },
            Property::UniformResourceLocator(x) => {
                if self.url.is_some() {
                    return Err(PropertyError::DuplicateProperty("URL"));
                }
                self.url = Some(x);
                Ok(())
            },
            Property::RRule(x) => {
                if self.rrule.is_some() {
                    return Err(PropertyError::DuplicateProperty("RRULE"));
                }
                self.rrule = Some(x);
                Ok(())
            },
            Property::DateTimeDue(x) => {
                if self.due.is_some() {
                    return Err(PropertyError::DuplicateProperty("DUE"));
                }
                self.due = Some(x);
                Ok(())
            },
            Property::Duration(x) => {
                if self.duration.is_some() {
                    return Err(PropertyError::DuplicateProperty("DURATION"));
                }
                self.duration = Some(x);
                Ok(())
            },
            Property::Attachment(x) => {
                self.attach.push(x);
                Ok(())
            },
            Property::Attendee(x) => {
                self.attendee.push(x);
                Ok(())
            },
            Property::Categories(x) => {
                self.categories.push(x);
                Ok(())
            },
            Property::Comment(x) => {
                self.comment.push(x);
                Ok(())
            },
            Property::Contact(x) => {
                self.contact.push(x);
                Ok(())
            },
            Property::ExceptionDateTimes(x) => {
                self.exdate.push(x);
                Ok(())
            },
            Property::RequestStatus(x) => {
                self.rstatus.push(x);
                Ok(())
            },
            Property::RelatedTo(x) => {
                self.related.push(x);
                Ok(())
            },
            Property::Resources(x) => {
                self.resources.push(x);
                Ok(())
            },
            Property::RecurrenceDateTimes(x) => {
                self.rdate.push(x);
                Ok(())
            },
            Property::Color(x) => {
                if self.color.is_some() {
                    return Err(PropertyError::DuplicateProperty("COLOR"));
                }
                self.color = Some(x);
                Ok(())
            },
            Property::Image(x) => {
                self.image.push(x);
                Ok(())
            },
            Property::Conference(x) => {
                self.conference.push(x);
                Ok(())
            },
            Property::Xprop(x) => {
                self.xprop.push(x);
                Ok(())
            },
            Property::Iana(x) => {
                self.iana.push(x);
                Ok(())
            },
            _ => Err(PropertyError::UnexpectedProperty),
        }
    }

    /// Adds a nested component read in full.
    pub fn push_alarms(&mut self, v: Alarm)
        ensures
            final(self).parts() == (TodoParseParts { alarms: old(self).parts().alarms.push(v), ..old(self).parts() }),
    {
        self.alarms.push(v);
    }

    /// Builds the component: the properties it requires must be there,
    /// and then it is checked as its builder checks it.
    pub fn finish(self) -> (r: Result<Todo, ComponentError>)
        ensures
            todo_missing(self.parts()) matches Some(n) ==> r == Err::<Todo, ComponentError>(ComponentError::MissingField(n)),
            todo_missing(self.parts()) is None ==> (r is Ok <==> todo_check(todo_parts_of(self.parts())) is Ok),
            todo_missing(self.parts()) is None ==> (r matches Err(e) ==> todo_check(todo_parts_of(self.parts())) == Err::<(), ComponentError>(e)),
            r matches Ok(c) ==> c.parts() == todo_parts_of(self.parts()),
    {
        let TodoParseBuilder { dtstamp, uid, class, completed, created, description, dtstart, geo, last_mod, location, organizer, percent, priority, recur_id, seq, status, summary, url, rrule, due, duration, attach, attendee, categories, comment, contact, exdate, rstatus, related, resources, rdate, color, image, conference, xprop, iana, alarms } = self;
        let dtstamp = match dtstamp {
            Some(x) => x,
            None => {
                return Err(ComponentError::MissingField("DTSTAMP"));
            },
        };
        let uid = match uid {
            Some(x) => x,
            None => {
                return Err(ComponentError::MissingField("UID"));
            },
        };
        let b = TodoBuilder::<Unset> {
            dtstamp,
            uid,
            class,
            completed,
            created,
            description,
            dtstart,
            geo,
            last_mod,
            location,
            organizer,
            percent,
            priority,
            recur_id,
            seq,
            status,
            summary,
            url,
            rrule,
            due,
            duration,
            attach,
            attendee,
            categories,
            comment,
            contact,
            exdate,
            rstatus,
            related,
            resources,
            rdate,
            color,
            image,
            conference,
            xprop,
            iana,
            alarms,
            _state: PhantomData,
        };
        b.build()
    }
}

} // verus!
