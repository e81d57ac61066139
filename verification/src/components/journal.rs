//! Journal entries (RFC 5545 §3.6.3).

use vstd::prelude::*;
use vstd::utf8::valid_utf8;
use std::marker::PhantomData;
use crate::components::{
    blocks, delimiter, first_err, lemma_blocks_valid, lemma_delimiter_valid, lemma_line_valid, lemma_lines_valid,
    lemma_opt_line_valid, line, lines, opt_line, start_checks, check_start, write_blocks, write_delimiter,
    write_line, write_lines, write_opt_line,
    ComponentError,
};
use crate::properties::component::change::{DateTimeCreated, DateTimeStamp, LastModified, Sequence};
use crate::properties::component::datetime::{DateTimeStart};
use crate::properties::component::descriptive::{Attachment, Categories, Classification, Color, Comment, Description, Image, Status, Summary};
use crate::properties::component::misc::{RequestStatus};
use crate::properties::component::recurrence::{ExceptionDateTimes, RRule, RecurrenceDateTimes};
use crate::properties::component::relationship::{Attendee, Contact, Organizer, RecurrenceId, RelatedTo, Uid, UniformResourceLocator};
use crate::properties::{Iana, Xprop};
use crate::properties::component::datetime::value_type_check;
use crate::values::datetime::DateOrDatetime;
use crate::values::Ical;
use crate::components::{due_value, end_value};


use crate::ast::property::Property;
use crate::properties::PropertyError;
verus! {

/// The properties of a [`Journal`] or of a [`JournalBuilder`].
pub struct JournalParts {
    /// `dtstamp`.
    pub dtstamp: DateTimeStamp,
    /// `uid`.
    pub uid: Uid,
    /// `class`.
    pub class: Option<Classification>,
    /// `created`.
    pub created: Option<DateTimeCreated>,
    /// `dtstart`.
    pub dtstart: Option<DateTimeStart>,
    /// `last_mod`.
    pub last_mod: Option<LastModified>,
    /// `organizer`.
    pub organizer: Option<Organizer>,
    /// `recurid`.
    pub recurid: Option<RecurrenceId>,
    /// `seq`.
    pub seq: Option<Sequence>,
    /// `status`.
    pub status: Option<Status>,
    /// `summary`.
    pub summary: Option<Summary>,
    /// `url`.
    pub url: Option<UniformResourceLocator>,
    /// `rrule`.
    pub rrule: Option<RRule>,
    /// `attach`.
    pub attach: Seq<Attachment>,
    /// `attendee`.
    pub attendee: Seq<Attendee>,
    /// `categories`.
    pub categories: Seq<Categories>,
    /// `comment`.
    pub comment: Seq<Comment>,
    /// `contact`.
    pub contact: Seq<Contact>,
    /// `description`.
    pub description: Seq<Description>,
    /// `exdate`.
    pub exdate: Seq<ExceptionDateTimes>,
    /// `related`.
    pub related: Seq<RelatedTo>,
    /// `rdate`.
    pub rdate: Seq<RecurrenceDateTimes>,
    /// `rstatus`.
    pub rstatus: Seq<RequestStatus>,
    /// `color`.
    pub color: Option<Color>,
    /// `image`.
    pub image: Seq<Image>,
    /// `xprop`.
    pub xprop: Seq<Xprop>,
    /// `iana`.
    pub iana: Seq<Iana>,
}

/// A `VJOURNAL` component (RFC 5545 §3.6.3): descriptive text attached to
/// a date.
#[derive(Debug)]
pub struct Journal {
    dtstamp: DateTimeStamp,
    uid: Uid,
    class: Option<Classification>,
    created: Option<DateTimeCreated>,
    dtstart: Option<DateTimeStart>,
    last_mod: Option<LastModified>,
    organizer: Option<Organizer>,
    recurid: Option<RecurrenceId>,
    seq: Option<Sequence>,
    status: Option<Status>,
    summary: Option<Summary>,
    url: Option<UniformResourceLocator>,
    rrule: Option<RRule>,
    attach: Vec<Attachment>,
    attendee: Vec<Attendee>,
    categories: Vec<Categories>,
    comment: Vec<Comment>,
    contact: Vec<Contact>,
    description: Vec<Description>,
    exdate: Vec<ExceptionDateTimes>,
    related: Vec<RelatedTo>,
    rdate: Vec<RecurrenceDateTimes>,
    rstatus: Vec<RequestStatus>,
    color: Option<Color>,
    image: Vec<Image>,
    xprop: Vec<Xprop>,
    iana: Vec<Iana>,
}

/// Lines 0 of a written [`Journal`].
pub open spec fn journal_lines_0(p: JournalParts) -> Seq<u8> {
    line(p.dtstamp)
        + line(p.uid)
        + opt_line(p.class)
        + opt_line(p.created)
        + opt_line(p.dtstart)
        + opt_line(p.last_mod)
        + opt_line(p.organizer)
        + opt_line(p.recurid)
}

/// Lines 1 of a written [`Journal`].
pub open spec fn journal_lines_1(p: JournalParts) -> Seq<u8> {
    opt_line(p.seq)
        + opt_line(p.status)
        + opt_line(p.summary)
        + opt_line(p.url)
        + opt_line(p.rrule)
        + lines(p.attach)
        + lines(p.attendee)
        + lines(p.categories)
}

/// Lines 2 of a written [`Journal`].
pub open spec fn journal_lines_2(p: JournalParts) -> Seq<u8> {
    lines(p.comment)
        + lines(p.contact)
        + lines(p.description)
        + lines(p.exdate)
        + lines(p.related)
        + lines(p.rdate)
        + lines(p.rstatus)
        + opt_line(p.color)
}

/// Lines 3 of a written [`Journal`].
pub open spec fn journal_lines_3(p: JournalParts) -> Seq<u8> {
    lines(p.image)
        + lines(p.xprop)
        + lines(p.iana)
}

/// The lines of a written [`Journal`], between its delimiters.
#[verifier::opaque]
pub open spec fn journal_body(p: JournalParts) -> Seq<u8> {
    journal_lines_0(p) + journal_lines_1(p) + journal_lines_2(p) + journal_lines_3(p)
}

proof fn lemma_journal_lines_0_valid(p: JournalParts)
    ensures
        valid_utf8(journal_lines_0(p)),
{
    lemma_line_valid(p.dtstamp);
    lemma_line_valid(p.uid);
    lemma_opt_line_valid(p.class);
    lemma_opt_line_valid(p.created);
    lemma_opt_line_valid(p.dtstart);
    lemma_opt_line_valid(p.last_mod);
    lemma_opt_line_valid(p.organizer);
    lemma_opt_line_valid(p.recurid);
    vstd::utf8::valid_utf8_concat(line(p.dtstamp), line(p.uid));
    vstd::utf8::valid_utf8_concat(line(p.dtstamp) + line(p.uid), opt_line(p.class));
    vstd::utf8::valid_utf8_concat(line(p.dtstamp) + line(p.uid) + opt_line(p.class), opt_line(p.created));
    vstd::utf8::valid_utf8_concat(line(p.dtstamp) + line(p.uid) + opt_line(p.class) + opt_line(p.created), opt_line(p.dtstart));
    vstd::utf8::valid_utf8_concat(line(p.dtstamp) + line(p.uid) + opt_line(p.class) + opt_line(p.created) + opt_line(p.dtstart), opt_line(p.last_mod));
    vstd::utf8::valid_utf8_concat(line(p.dtstamp) + line(p.uid) + opt_line(p.class) + opt_line(p.created) + opt_line(p.dtstart) + opt_line(p.last_mod), opt_line(p.organizer));
    vstd::utf8::valid_utf8_concat(line(p.dtstamp) + line(p.uid) + opt_line(p.class) + opt_line(p.created) + opt_line(p.dtstart) + opt_line(p.last_mod) + opt_line(p.organizer), opt_line(p.recurid));
}

proof fn lemma_journal_lines_1_valid(p: JournalParts)
    ensures
        valid_utf8(journal_lines_1(p)),
{
    lemma_opt_line_valid(p.seq);
    lemma_opt_line_valid(p.status);
    lemma_opt_line_valid(p.summary);
    lemma_opt_line_valid(p.url);
    lemma_opt_line_valid(p.rrule);
    lemma_lines_valid(p.attach);
    lemma_lines_valid(p.attendee);
    lemma_lines_valid(p.categories);
    vstd::utf8::valid_utf8_concat(opt_line(p.seq), opt_line(p.status));
    vstd::utf8::valid_utf8_concat(opt_line(p.seq) + opt_line(p.status), opt_line(p.summary));
    vstd::utf8::valid_utf8_concat(opt_line(p.seq) + opt_line(p.status) + opt_line(p.summary), opt_line(p.url));
    vstd::utf8::valid_utf8_concat(opt_line(p.seq) + opt_line(p.status) + opt_line(p.summary) + opt_line(p.url), opt_line(p.rrule));
    vstd::utf8::valid_utf8_concat(opt_line(p.seq) + opt_line(p.status) + opt_line(p.summary) + opt_line(p.url) + opt_line(p.rrule), lines(p.attach));
    vstd::utf8::valid_utf8_concat(opt_line(p.seq) + opt_line(p.status) + opt_line(p.summary) + opt_line(p.url) + opt_line(p.rrule) + lines(p.attach), lines(p.attendee));
    vstd::utf8::valid_utf8_concat(opt_line(p.seq) + opt_line(p.status) + opt_line(p.summary) + opt_line(p.url) + opt_line(p.rrule) + lines(p.attach) + lines(p.attendee), lines(p.categories));
}

proof fn lemma_journal_lines_2_valid(p: JournalParts)
    ensures
        valid_utf8(journal_lines_2(p)),
{
    lemma_lines_valid(p.comment);
    lemma_lines_valid(p.contact);
    lemma_lines_valid(p.description);
    lemma_lines_valid(p.exdate);
    lemma_lines_valid(p.related);
    lemma_lines_valid(p.rdate);
    lemma_lines_valid(p.rstatus);
    lemma_opt_line_valid(p.color);
    vstd::utf8::valid_utf8_concat(lines(p.comment), lines(p.contact));
    vstd::utf8::valid_utf8_concat(lines(p.comment) + lines(p.contact), lines(p.description));
    vstd::utf8::valid_utf8_concat(lines(p.comment) + lines(p.contact) + lines(p.description), lines(p.exdate));
    vstd::utf8::valid_utf8_concat(lines(p.comment) + lines(p.contact) + lines(p.description) + lines(p.exdate), lines(p.related));
    vstd::utf8::valid_utf8_concat(lines(p.comment) + lines(p.contact) + lines(p.description) + lines(p.exdate) + lines(p.related), lines(p.rdate));
    vstd::utf8::valid_utf8_concat(lines(p.comment) + lines(p.contact) + lines(p.description) + lines(p.exdate) + lines(p.related) + lines(p.rdate), lines(p.rstatus));
    vstd::utf8::valid_utf8_concat(lines(p.comment) + lines(p.contact) + lines(p.description) + lines(p.exdate) + lines(p.related) + lines(p.rdate) + lines(p.rstatus), opt_line(p.color));
}

proof fn lemma_journal_lines_3_valid(p: JournalParts)
    ensures
        valid_utf8(journal_lines_3(p)),
{
    lemma_lines_valid(p.image);
    lemma_lines_valid(p.xprop);
    lemma_lines_valid(p.iana);
    vstd::utf8::valid_utf8_concat(lines(p.image), lines(p.xprop));
    vstd::utf8::valid_utf8_concat(lines(p.image) + lines(p.xprop), lines(p.iana));
}

proof fn lemma_journal_body_valid(p: JournalParts)
    ensures
        valid_utf8(journal_body(p)),
{
    reveal(journal_body);
    lemma_journal_lines_0_valid(p);
    lemma_journal_lines_1_valid(p);
    lemma_journal_lines_2_valid(p);
    lemma_journal_lines_3_valid(p);
    vstd::utf8::valid_utf8_concat(journal_lines_0(p), journal_lines_1(p));
    vstd::utf8::valid_utf8_concat(journal_lines_0(p) + journal_lines_1(p), journal_lines_2(p));
    vstd::utf8::valid_utf8_concat(journal_lines_0(p) + journal_lines_1(p) + journal_lines_2(p), journal_lines_3(p));
}

impl Journal {
    /// The properties held.
    pub closed spec fn parts(&self) -> JournalParts {
        JournalParts {
            dtstamp: self.dtstamp,
            uid: self.uid,
            class: self.class,
            created: self.created,
            dtstart: self.dtstart,
            last_mod: self.last_mod,
            organizer: self.organizer,
            recurid: self.recurid,
            seq: self.seq,
            status: self.status,
            summary: self.summary,
            url: self.url,
            rrule: self.rrule,
            attach: self.attach@,
            attendee: self.attendee@,
            categories: self.categories@,
            comment: self.comment@,
            contact: self.contact@,
            description: self.description@,
            exdate: self.exdate@,
            related: self.related@,
            rdate: self.rdate@,
            rstatus: self.rstatus@,
            color: self.color,
            image: self.image@,
            xprop: self.xprop@,
            iana: self.iana@,
        }
    }

    /// `dtstamp`.
    pub fn dtstamp(&self) -> (r: &DateTimeStamp)
        ensures
            *r == self.parts().dtstamp,
    {
        &self.dtstamp
    }

    /// `uid`.
    pub fn uid(&self) -> (r: &Uid)
        ensures
            *r == self.parts().uid,
    {
        &self.uid
    }

    /// `class`, if set.
    pub fn class(&self) -> (r: Option<&Classification>)
        ensures
            match r {
                Some(x) => self.parts().class == Some(*x),
                None => self.parts().class is None,
            },
    {
        self.class.as_ref()
    }

    /// `created`, if set.
    pub fn created(&self) -> (r: Option<&DateTimeCreated>)
        ensures
            match r {
                Some(x) => self.parts().created == Some(*x),
                None => self.parts().created is None,
            },
    {
        self.created.as_ref()
    }

    /// `dtstart`, if set.
    pub fn dtstart(&self) -> (r: Option<&DateTimeStart>)
        ensures
            match r {
                Some(x) => self.parts().dtstart == Some(*x),
                None => self.parts().dtstart is None,
            },
    {
        self.dtstart.as_ref()
    }

    /// `last_mod`, if set.
    pub fn last_mod(&self) -> (r: Option<&LastModified>)
        ensures
            match r {
                Some(x) => self.parts().last_mod == Some(*x),
                None => self.parts().last_mod is None,
            },
    {
        self.last_mod.as_ref()
    }

    /// `organizer`, if set.
    pub fn organizer(&self) -> (r: Option<&Organizer>)
        ensures
            match r {
                Some(x) => self.parts().organizer == Some(*x),
                None => self.parts().organizer is None,
            },
    {
        self.organizer.as_ref()
    }

    /// `recurid`, if set.
    pub fn recurid(&self) -> (r: Option<&RecurrenceId>)
        ensures
            match r {
                Some(x) => self.parts().recurid == Some(*x),
                None => self.parts().recurid is None,
            },
    {
        self.recurid.as_ref()
    }

    /// `seq`, if set.
    pub fn seq(&self) -> (r: Option<&Sequence>)
        ensures
            match r {
                Some(x) => self.parts().seq == Some(*x),
                None => self.parts().seq is None,
            },
    {
        self.seq.as_ref()
    }

    /// `status`, if set.
    pub fn status(&self) -> (r: Option<&Status>)
        ensures
            match r {
                Some(x) => self.parts().status == Some(*x),
                None => self.parts().status is None,
            },
    {
        self.status.as_ref()
    }

    /// `summary`, if set.
    pub fn summary(&self) -> (r: Option<&Summary>)
        ensures
            match r {
                Some(x) => self.parts().summary == Some(*x),
                None => self.parts().summary is None,
            },
    {
        self.summary.as_ref()
    }

    /// `url`, if set.
    pub fn url(&self) -> (r: Option<&UniformResourceLocator>)
        ensures
            match r {
                Some(x) => self.parts().url == Some(*x),
                None => self.parts().url is None,
            },
    {
        self.url.as_ref()
    }

    /// `rrule`, if set.
    pub fn rrule(&self) -> (r: Option<&RRule>)
        ensures
            match r {
                Some(x) => self.parts().rrule == Some(*x),
                None => self.parts().rrule is None,
            },
    {
        self.rrule.as_ref()
    }

    /// `attach`, in order.
    pub fn attach(&self) -> (r: &[Attachment])
        ensures
            r@ == self.parts().attach,
    {
        self.attach.as_slice()
    }

    /// `attendee`, in order.
    pub fn attendee(&self) -> (r: &[Attendee])
        ensures
            r@ == self.parts().attendee,
    {
        self.attendee.as_slice()
    }

    /// `categories`, in order.
    pub fn categories(&self) -> (r: &[Categories])
        ensures
            r@ == self.parts().categories,
    {
        self.categories.as_slice()
    }

    /// `comment`, in order.
    pub fn comment(&self) -> (r: &[Comment])
        ensures
            r@ == self.parts().comment,
    {
        self.comment.as_slice()
    }

    /// `contact`, in order.
    pub fn contact(&self) -> (r: &[Contact])
        ensures
            r@ == self.parts().contact,
    {
        self.contact.as_slice()
    }

    /// `description`, in order.
    pub fn description(&self) -> (r: &[Description])
        ensures
            r@ == self.parts().description,
    {
        self.description.as_slice()
    }

    /// `exdate`, in order.
    pub fn exdate(&self) -> (r: &[ExceptionDateTimes])
        ensures
            r@ == self.parts().exdate,
    {
        self.exdate.as_slice()
    }

    /// `related`, in order.
    pub fn related(&self) -> (r: &[RelatedTo])
        ensures
            r@ == self.parts().related,
    {
        self.related.as_slice()
    }

    /// `rdate`, in order.
    pub fn rdate(&self) -> (r: &[RecurrenceDateTimes])
        ensures
            r@ == self.parts().rdate,
    {
        self.rdate.as_slice()
    }

    /// `rstatus`, in order.
    pub fn rstatus(&self) -> (r: &[RequestStatus])
        ensures
            r@ == self.parts().rstatus,
    {
        self.rstatus.as_slice()
    }

    /// `xprop`, in order.
    pub fn xprop(&self) -> (r: &[Xprop])
        ensures
            r@ == self.parts().xprop,
    {
        self.xprop.as_slice()
    }

    /// `iana`, in order.
    pub fn iana(&self) -> (r: &[Iana])
        ensures
            r@ == self.parts().iana,
    {
        self.iana.as_slice()
    }

    /// `color`, if set.
    pub fn color(&self) -> (r: Option<&Color>)
        ensures
            match r {
                Some(x) => self.parts().color == Some(*x),
                None => self.parts().color is None,
            },
    {
        self.color.as_ref()
    }

    /// `image`, in order.
    pub fn image(&self) -> (r: &[Image])
        ensures
            r@ == self.parts().image,
    {
        self.image.as_slice()
    }

    fn write_lines_0(&self, out: &mut Vec<u8>)
        ensures
            final(out)@ == old(out)@ + journal_lines_0(self.parts()),
    {
        write_line(&self.dtstamp, out);
        write_line(&self.uid, out);
        write_opt_line(&self.class, out);
        write_opt_line(&self.created, out);
        write_opt_line(&self.dtstart, out);
        write_opt_line(&self.last_mod, out);
        write_opt_line(&self.organizer, out);
        write_opt_line(&self.recurid, out);
        assert(out@ =~= old(out)@ + journal_lines_0(self.parts()));
    }

    fn write_lines_1(&self, out: &mut Vec<u8>)
        ensures
            final(out)@ == old(out)@ + journal_lines_1(self.parts()),
    {
        write_opt_line(&self.seq, out);
        write_opt_line(&self.status, out);
        write_opt_line(&self.summary, out);
        write_opt_line(&self.url, out);
        write_opt_line(&self.rrule, out);
        write_lines(self.attach.as_slice(), out);
        write_lines(self.attendee.as_slice(), out);
        write_lines(self.categories.as_slice(), out);
        assert(out@ =~= old(out)@ + journal_lines_1(self.parts()));
    }

    fn write_lines_2(&self, out: &mut Vec<u8>)
        ensures
            final(out)@ == old(out)@ + journal_lines_2(self.parts()),
    {
        write_lines(self.comment.as_slice(), out);
        write_lines(self.contact.as_slice(), out);
        write_lines(self.description.as_slice(), out);
        write_lines(self.exdate.as_slice(), out);
        write_lines(self.related.as_slice(), out);
        write_lines(self.rdate.as_slice(), out);
        write_lines(self.rstatus.as_slice(), out);
        write_opt_line(&self.color, out);
        assert(out@ =~= old(out)@ + journal_lines_2(self.parts()));
    }

    fn write_lines_3(&self, out: &mut Vec<u8>)
        ensures
            final(out)@ == old(out)@ + journal_lines_3(self.parts()),
    {
        write_lines(self.image.as_slice(), out);
        write_lines(self.xprop.as_slice(), out);
        write_lines(self.iana.as_slice(), out);
        assert(out@ =~= old(out)@ + journal_lines_3(self.parts()));
    }

    fn write_body(&self, out: &mut Vec<u8>)
        ensures
            final(out)@ == old(out)@ + journal_body(self.parts()),
    {
        reveal(journal_body);
        self.write_lines_0(out);
        self.write_lines_1(out);
        self.write_lines_2(out);
        self.write_lines_3(out);
        assert(out@ =~= old(out)@ + journal_body(self.parts()));
    }
}

impl Ical for Journal {
    /// `BEGIN:VJOURNAL`, a line for each property, each nested component, and
    /// `END:VJOURNAL`.
    open spec fn ical(&self) -> Seq<u8> {
        delimiter("BEGIN:", "VJOURNAL") + journal_body(self.parts()) + delimiter("END:", "VJOURNAL")
    }

    proof fn lemma_ical_valid(&self) {
        lemma_delimiter_valid("BEGIN:", "VJOURNAL");
        lemma_delimiter_valid("END:", "VJOURNAL");
        lemma_journal_body_valid(self.parts());
        vstd::utf8::valid_utf8_concat(delimiter("BEGIN:", "VJOURNAL"), journal_body(self.parts()));
        vstd::utf8::valid_utf8_concat(
            delimiter("BEGIN:", "VJOURNAL") + journal_body(self.parts()),
            delimiter("END:", "VJOURNAL"),
        );
    }

    fn write_to(&self, out: &mut Vec<u8>) {
        write_delimiter("BEGIN:", "VJOURNAL", out);
        self.write_body(out);
        write_delimiter("END:", "VJOURNAL", out);
        assert(out@ =~= old(out)@ + self.ical());
    }
}

/// What building a [`Journal`] checks, in order; the first failure is the outcome.
pub open spec fn journal_check(p: JournalParts) -> Result<(), ComponentError> {
    match p.dtstart {
        Some(s) => start_checks(s, p.rrule, None, "DTEND", p.exdate, p.rdate),
        None => Ok(()),
    }
}

/// Builds a [`Journal`].
#[derive(Debug)]
pub struct JournalBuilder {
    dtstamp: DateTimeStamp,
    uid: Uid,
    class: Option<Classification>,
    created: Option<DateTimeCreated>,
    dtstart: Option<DateTimeStart>,
    last_mod: Option<LastModified>,
    organizer: Option<Organizer>,
    recurid: Option<RecurrenceId>,
    seq: Option<Sequence>,
    status: Option<Status>,
    summary: Option<Summary>,
    url: Option<UniformResourceLocator>,
    rrule: Option<RRule>,
    attach: Vec<Attachment>,
    attendee: Vec<Attendee>,
    categories: Vec<Categories>,
    comment: Vec<Comment>,
    contact: Vec<Contact>,
    description: Vec<Description>,
    exdate: Vec<ExceptionDateTimes>,
    related: Vec<RelatedTo>,
    rdate: Vec<RecurrenceDateTimes>,
    rstatus: Vec<RequestStatus>,
    color: Option<Color>,
    image: Vec<Image>,
    xprop: Vec<Xprop>,
    iana: Vec<Iana>,
}

impl JournalBuilder {
    /// The properties held.
    pub closed spec fn parts(&self) -> JournalParts {
        JournalParts {
            dtstamp: self.dtstamp,
            uid: self.uid,
            class: self.class,
            created: self.created,
            dtstart: self.dtstart,
            last_mod: self.last_mod,
            organizer: self.organizer,
            recurid: self.recurid,
            seq: self.seq,
            status: self.status,
            summary: self.summary,
            url: self.url,
            rrule: self.rrule,
            attach: self.attach@,
            attendee: self.attendee@,
            categories: self.categories@,
            comment: self.comment@,
            contact: self.contact@,
            description: self.description@,
            exdate: self.exdate@,
            related: self.related@,
            rdate: self.rdate@,
            rstatus: self.rstatus@,
            color: self.color,
            image: self.image@,
            xprop: self.xprop@,
            iana: self.iana@,
        }
    }

    /// Sets `class`.
    pub fn class(self, v: Classification) -> (r: JournalBuilder)
        ensures
            r.parts() == (JournalParts { class: Some(v), ..self.parts() }),
    {
        let mut b = self;
        b.class = Some(v);
        b
    }

    /// Sets `created`.
    pub fn created(self, v: DateTimeCreated) -> (r: JournalBuilder)
        ensures
            r.parts() == (JournalParts { created: Some(v), ..self.parts() }),
    {
        let mut b = self;
        b.created = Some(v);
        b
    }

    /// Sets `dtstart`.
    pub fn dtstart(self, v: DateTimeStart) -> (r: JournalBuilder)
        ensures
            r.parts() == (JournalParts { dtstart: Some(v), ..self.parts() }),
    {
        let mut b = self;
        b.dtstart = Some(v);
        b
    }

    /// Sets `last_mod`.
    pub fn last_mod(self, v: LastModified) -> (r: JournalBuilder)
        ensures
            r.parts() == (JournalParts { last_mod: Some(v), ..self.parts() }),
    {
        let mut b = self;
        b.last_mod = Some(v);
        b
    }

    /// Sets `organizer`.
    pub fn organizer(self, v: Organizer) -> (r: JournalBuilder)
        ensures
            r.parts() == (JournalParts { organizer: Some(v), ..self.parts() }),
    {
        let mut b = self;
        b.organizer = Some(v);
        b
    }

    /// Sets `recurid`.
    pub fn recurid(self, v: RecurrenceId) -> (r: JournalBuilder)
        ensures
            r.parts() == (JournalParts { recurid: Some(v), ..self.parts() }),
    {
        let mut b = self;
        b.recurid = Some(v);
        b
    }

    /// Sets `seq`.
    pub fn seq(self, v: Sequence) -> (r: JournalBuilder)
        ensures
            r.parts() == (JournalParts { seq: Some(v), ..self.parts() }),
    {
        let mut b = self;
        b.seq = Some(v);
        b
    }

    /// Sets `status`.
    pub fn status(self, v: Status) -> (r: JournalBuilder)
        ensures
            r.parts() == (JournalParts { status: Some(v), ..self.parts() }),
    {
        let mut b = self;
        b.status = Some(v);
        b
    }

    /// Sets `summary`.
    pub fn summary(self, v: Summary) -> (r: JournalBuilder)
        ensures
            r.parts() == (JournalParts { summary: Some(v), ..self.parts() }),
    {
        let mut b = self;
        b.summary = Some(v);
        b
    }

    /// Sets `url`.
    pub fn url(self, v: UniformResourceLocator) -> (r: JournalBuilder)
        ensures
            r.parts() == (JournalParts { url: Some(v), ..self.parts() }),
    {
        let mut b = self;
        b.url = Some(v);
        b
    }

    /// Sets `rrule`.
    pub fn rrule(self, v: RRule) -> (r: JournalBuilder)
        ensures
            r.parts() == (JournalParts { rrule: Some(v), ..self.parts() }),
    {
        let mut b = self;
        b.rrule = Some(v);
        b
    }

    /// Adds a `attach`.
    pub fn attach(self, v: Attachment) -> (r: JournalBuilder)
        ensures
            r.parts() == (JournalParts { attach: self.parts().attach.push(v), ..self.parts() }),
    {
        let mut b = self;
        b.attach.push(v);
        b
    }

    /// Adds a `attendee`.
    pub fn attendee(self, v: Attendee) -> (r: JournalBuilder)
        ensures
            r.parts() == (JournalParts { attendee: self.parts().attendee.push(v), ..self.parts() }),
    {
        let mut b = self;
        b.attendee.push(v);
        b
    }

    /// Adds a `categories`.
    pub fn categories(self, v: Categories) -> (r: JournalBuilder)
        ensures
            r.parts() == (JournalParts { categories: self.parts().categories.push(v), ..self.parts() }),
    {
        let mut b = self;
        b.categories.push(v);
        b
    }

    /// Adds a `comment`.
    pub fn comment(self, v: Comment) -> (r: JournalBuilder)
        ensures
            r.parts() == (JournalParts { comment: self.parts().comment.push(v), ..self.parts() }),
    {
        let mut b = self;
        b.comment.push(v);
        b
    }

    /// Adds a `contact`.
    pub fn contact(self, v: Contact) -> (r: JournalBuilder)
        ensures
            r.parts() == (JournalParts { contact: self.parts().contact.push(v), ..self.parts() }),
    {
        let mut b = self;
        b.contact.push(v);
        b
    }

    /// Adds a `description`.
    pub fn description(self, v: Description) -> (r: JournalBuilder)
        ensures
            r.parts() == (JournalParts { description: self.parts().description.push(v), ..self.parts() }),
    {
        let mut b = self;
        b.description.push(v);
        b
    }

    /// Adds a `exdate`.
    pub fn exdate(self, v: ExceptionDateTimes) -> (r: JournalBuilder)
        ensures
            r.parts() == (JournalParts { exdate: self.parts().exdate.push(v), ..self.parts() }),
    {
        let mut b = self;
        b.exdate.push(v);
        b
    }

    /// Adds a `related`.
    pub fn related(self, v: RelatedTo) -> (r: JournalBuilder)
        ensures
            r.parts() == (JournalParts { related: self.parts().related.push(v), ..self.parts() }),
    {
        let mut b = self;
        b.related.push(v);
        b
    }

    /// Adds a `rdate`.
    pub fn rdate(self, v: RecurrenceDateTimes) -> (r: JournalBuilder)
        ensures
            r.parts() == (JournalParts { rdate: self.parts().rdate.push(v), ..self.parts() }),
    {
        let mut b = self;
        b.rdate.push(v);
        b
    }

    /// Adds a `rstatus`.
    pub fn rstatus(self, v: RequestStatus) -> (r: JournalBuilder)
        ensures
            r.parts() == (JournalParts { rstatus: self.parts().rstatus.push(v), ..self.parts() }),
    {
        let mut b = self;
        b.rstatus.push(v);
        b
    }

    /// Sets `color`.
    pub fn color(self, v: Color) -> (r: JournalBuilder)
        ensures
            r.parts() == (JournalParts { color: Some(v), ..self.parts() }),
    {
        let mut b = self;
        b.color = Some(v);
        b
    }

    /// Adds a `image`.
    pub fn image(self, v: Image) -> (r: JournalBuilder)
        ensures
            r.parts() == (JournalParts { image: self.parts().image.push(v), ..self.parts() }),
    {
        let mut b = self;
        b.image.push(v);
        b
    }

    /// Adds a `xprop`.
    pub fn xprop(self, v: Xprop) -> (r: JournalBuilder)
        ensures
            r.parts() == (JournalParts { xprop: self.parts().xprop.push(v), ..self.parts() }),
    {
        let mut b = self;
        b.xprop.push(v);
        b
    }

    /// Adds a `iana`.
    pub fn iana(self, v: Iana) -> (r: JournalBuilder)
        ensures
            r.parts() == (JournalParts { iana: self.parts().iana.push(v), ..self.parts() }),
    {
        let mut b = self;
        b.iana.push(v);
        b
    }

    /// Checks the rules that hold between the properties, and builds the
    /// component.
    pub fn build(self) -> (r: Result<Journal, ComponentError>)
        ensures
            r is Ok <==> journal_check(self.parts()) is Ok,
            r matches Err(e) ==> journal_check(self.parts()) == Err::<(), ComponentError>(e),
            r matches Ok(c) ==> c.parts() == self.parts(),
    {

        if let Some(s) = &self.dtstart {
            if let Err(e) = check_start(s, self.rrule.as_ref(), None, "DTEND", self.exdate.as_slice(), self.rdate.as_slice()) {
                return Err(e);
            }
        }
        Ok(
            Journal {
                dtstamp: self.dtstamp,
                uid: self.uid,
                class: self.class,
                created: self.created,
                dtstart: self.dtstart,
                last_mod: self.last_mod,
                organizer: self.organizer,
                recurid: self.recurid,
                seq: self.seq,
                status: self.status,
                summary: self.summary,
                url: self.url,
                rrule: self.rrule,
                attach: self.attach,
                attendee: self.attendee,
                categories: self.categories,
                comment: self.comment,
                contact: self.contact,
                description: self.description,
                exdate: self.exdate,
                related: self.related,
                rdate: self.rdate,
                rstatus: self.rstatus,
                color: self.color,
                image: self.image,
                xprop: self.xprop,
                iana: self.iana,
            }
        )
    }
}

impl JournalBuilder {
    /// A builder with the two properties a journal entry always requires.
    pub fn new(dtstamp: DateTimeStamp, uid: Uid) -> (r: JournalBuilder)
        ensures
            r.parts() == (JournalParts { dtstamp, uid, class: None, created: None, dtstart: None, last_mod: None, organizer: None, recurid: None, seq: None, status: None, summary: None, url: None, rrule: None, attach: Seq::empty(), attendee: Seq::empty(), categories: Seq::empty(), comment: Seq::empty(), contact: Seq::empty(), description: Seq::empty(), exdate: Seq::empty(), related: Seq::empty(), rdate: Seq::empty(), rstatus: Seq::empty(), color: None, image: Seq::empty(), xprop: Seq::empty(), iana: Seq::empty() }),
    {
        JournalBuilder {
            dtstamp,
            uid,
            class: None,
            created: None,
            dtstart: None,
            last_mod: None,
            organizer: None,
            recurid: None,
            seq: None,
            status: None,
            summary: None,
            url: None,
            rrule: None,
            attach: Vec::new(),
            attendee: Vec::new(),
            categories: Vec::new(),
            comment: Vec::new(),
            contact: Vec::new(),
            description: Vec::new(),
            exdate: Vec::new(),
            related: Vec::new(),
            rdate: Vec::new(),
            rstatus: Vec::new(),
            color: None,
            image: Vec::new(),
            xprop: Vec::new(),
            iana: Vec::new(),
        }
    }
}


/// The properties of a [`JournalParseBuilder`], as values.
pub ghost struct JournalParseParts {
    /// `dtstamp`.
    pub dtstamp: Option<DateTimeStamp>,
    /// `uid`.
    pub uid: Option<Uid>,
    /// `class`.
    pub class: Option<Classification>,
    /// `created`.
    pub created: Option<DateTimeCreated>,
    /// `dtstart`.
    pub dtstart: Option<DateTimeStart>,
    /// `last_mod`.
    pub last_mod: Option<LastModified>,
    /// `organizer`.
    pub organizer: Option<Organizer>,
    /// `recurid`.
    pub recurid: Option<RecurrenceId>,
    /// `seq`.
    pub seq: Option<Sequence>,
    /// `status`.
    pub status: Option<Status>,
    /// `summary`.
    pub summary: Option<Summary>,
    /// `url`.
    pub url: Option<UniformResourceLocator>,
    /// `rrule`.
    pub rrule: Option<RRule>,
    /// `attach`.
    pub attach: Seq<Attachment>,
    /// `attendee`.
    pub attendee: Seq<Attendee>,
    /// `categories`.
    pub categories: Seq<Categories>,
    /// `comment`.
    pub comment: Seq<Comment>,
    /// `contact`.
    pub contact: Seq<Contact>,
    /// `description`.
    pub description: Seq<Description>,
    /// `exdate`.
    pub exdate: Seq<ExceptionDateTimes>,
    /// `related`.
    pub related: Seq<RelatedTo>,
    /// `rdate`.
    pub rdate: Seq<RecurrenceDateTimes>,
    /// `rstatus`.
    pub rstatus: Seq<RequestStatus>,
    /// `color`.
    pub color: Option<Color>,
    /// `image`.
    pub image: Seq<Image>,
    /// `xprop`.
    pub xprop: Seq<Xprop>,
    /// `iana`.
    pub iana: Seq<Iana>,
}

/// Collects the content lines of a component being read, in the order
/// they come, and builds it at its end.
#[derive(Debug)]
pub struct JournalParseBuilder {
    dtstamp: Option<DateTimeStamp>,
    uid: Option<Uid>,
    class: Option<Classification>,
    created: Option<DateTimeCreated>,
    dtstart: Option<DateTimeStart>,
    last_mod: Option<LastModified>,
    organizer: Option<Organizer>,
    recurid: Option<RecurrenceId>,
    seq: Option<Sequence>,
    status: Option<Status>,
    summary: Option<Summary>,
    url: Option<UniformResourceLocator>,
    rrule: Option<RRule>,
    attach: Vec<Attachment>,
    attendee: Vec<Attendee>,
    categories: Vec<Categories>,
    comment: Vec<Comment>,
    contact: Vec<Contact>,
    description: Vec<Description>,
    exdate: Vec<ExceptionDateTimes>,
    related: Vec<RelatedTo>,
    rdate: Vec<RecurrenceDateTimes>,
    rstatus: Vec<RequestStatus>,
    color: Option<Color>,
    image: Vec<Image>,
    xprop: Vec<Xprop>,
    iana: Vec<Iana>,
}

/// What reading the property `p` does to the properties `q` collected so
/// far: a property held once may not come twice, one held many times is
/// added, and one the component doesn't hold is refused.
#[verifier::opaque]
pub open spec fn journal_ingest(q: JournalParseParts, p: Property) -> Result<JournalParseParts, PropertyError> {
    match p {
        Property::DateTimeStamp(x) => if q.dtstamp is Some {
            Err(PropertyError::DuplicateProperty("DTSTAMP"))
        } else {
            Ok(JournalParseParts { dtstamp: Some(x), ..q })
        },
        Property::Uid(x) => if q.uid is Some {
            Err(PropertyError::DuplicateProperty("UID"))
        } else {
            Ok(JournalParseParts { uid: Some(x), ..q })
        },
        Property::Classification(x) => if q.class is Some {
            Err(PropertyError::DuplicateProperty("CLASS"))
        } else {
            Ok(JournalParseParts { class: Some(x), ..q })
        },
        Property::DateTimeCreated(x) => if q.created is Some {
            Err(PropertyError::DuplicateProperty("CREATED"))
        } else {
            Ok(JournalParseParts { created: Some(x), ..q })
        },
        Property::DateTimeStart(x) => if q.dtstart is Some {
            Err(PropertyError::DuplicateProperty("DTSTART"))
        } else {
            Ok(JournalParseParts { dtstart: Some(x), ..q })
        },
        Property::LastModified(x) => if q.last_mod is Some {
            Err(PropertyError::DuplicateProperty("LAST-MODIFIED"))
        } else {
            Ok(JournalParseParts { last_mod: Some(x), ..q })
        },
        Property::Organizer(x) => if q.organizer is Some {
            Err(PropertyError::DuplicateProperty("ORGANIZER"))
        } else {
            Ok(JournalParseParts { organizer: Some(x), ..q })
        },
        Property::RecurrenceId(x) => if q.recurid is Some {
            Err(PropertyError::DuplicateProperty("RECURRENCE-ID"))
        } else {
            Ok(JournalParseParts { recurid: Some(x), ..q })
        },
        Property::Sequence(x) => if q.seq is Some {
            Err(PropertyError::DuplicateProperty("SEQUENCE"))
        } else {
            Ok(JournalParseParts { seq: Some(x), ..q })
        },
        Property::Status(x) => if q.status is Some {
            Err(PropertyError::DuplicateProperty("STATUS"))
        } else {
            Ok(JournalParseParts { status: Some(x), ..q })
        },
        Property::Summary(x) => if q.summary is Some {
            Err(PropertyError::DuplicateProperty("SUMMARY"))
        } else {
            Ok(JournalParseParts { summary: Some(x), ..q })
        },
        Property::UniformResourceLocator(x) => if q.url is Some {
            Err(PropertyError::DuplicateProperty("URL"))
        } else {
            Ok(JournalParseParts { url: Some(x), ..q })
        },
        Property::RRule(x) => if q.rrule is Some {
            Err(PropertyError::DuplicateProperty("RRULE"))
        } else {
            Ok(JournalParseParts { rrule: Some(x), ..q })
        },
        Property::Attachment(x) => Ok(JournalParseParts { attach: q.attach.push(x), ..q }),
        Property::Attendee(x) => Ok(JournalParseParts { attendee: q.attendee.push(x), ..q }),
        Property::Categories(x) => Ok(JournalParseParts { categories: q.categories.push(x), ..q }),
        Property::Comment(x) => Ok(JournalParseParts { comment: q.comment.push(x), ..q }),
        Property::Contact(x) => Ok(JournalParseParts { contact: q.contact.push(x), ..q }),
        Property::Description(x) => Ok(JournalParseParts { description: q.description.push(x), ..q }),
        Property::ExceptionDateTimes(x) => Ok(JournalParseParts { exdate: q.exdate.push(x), ..q }),
        Property::RelatedTo(x) => Ok(JournalParseParts { related: q.related.push(x), ..q }),
        Property::RecurrenceDateTimes(x) => Ok(JournalParseParts { rdate: q.rdate.push(x), ..q }),
        Property::RequestStatus(x) => Ok(JournalParseParts { rstatus: q.rstatus.push(x), ..q }),
        Property::Color(x) => if q.color is Some {
            Err(PropertyError::DuplicateProperty("COLOR"))
        } else {
            Ok(JournalParseParts { color: Some(x), ..q })
        },
        Property::Image(x) => Ok(JournalParseParts { image: q.image.push(x), ..q }),
        Property::Xprop(x) => Ok(JournalParseParts { xprop: q.xprop.push(x), ..q }),
        Property::Iana(x) => Ok(JournalParseParts { iana: q.iana.push(x), ..q }),
        _ => Err(PropertyError::UnexpectedProperty),
    }
}

/// The properties `props` read one after the other into an empty
/// [`JournalParseBuilder`], or the first refusal.
pub open spec fn journal_fold(props: Seq<Property>) -> Result<JournalParseParts, PropertyError>
    decreases props.len(),
{
    if props.len() == 0 {
        Ok(JournalParseBuilder::empty_parts())
    } else {
        match journal_fold(props.drop_last()) {
            Ok(q) => journal_ingest(q, props.last()),
            Err(e) => Err(e),
        }
    }
}

/// The properties `q` holds, once those it requires are there.
pub open spec fn journal_parts_of(q: JournalParseParts) -> JournalParts {
    JournalParts {
        dtstamp: q.dtstamp->0,
        uid: q.uid->0,
        class: q.class,
        created: q.created,
        dtstart: q.dtstart,
        last_mod: q.last_mod,
        organizer: q.organizer,
        recurid: q.recurid,
        seq: q.seq,
        status: q.status,
        summary: q.summary,
        url: q.url,
        rrule: q.rrule,
        attach: q.attach,
        attendee: q.attendee,
        categories: q.categories,
        comment: q.comment,
        contact: q.contact,
        description: q.description,
        exdate: q.exdate,
        related: q.related,
        rdate: q.rdate,
        rstatus: q.rstatus,
        color: q.color,
        image: q.image,
        xprop: q.xprop,
        iana: q.iana,
    }
}

/// The first property `q` requires and lacks, if any.
pub open spec fn journal_missing(q: JournalParseParts) -> Option<&'static str> {
    if q.dtstamp is None {
        Some("DTSTAMP")
    } else if q.uid is None {
        Some("UID")
    } else {
        None
    }
}

impl JournalParseBuilder {
    /// The properties collected.
    pub closed spec fn parts(&self) -> JournalParseParts {
        JournalParseParts {
            dtstamp: self.dtstamp,
            uid: self.uid,
            class: self.class,
            created: self.created,
            dtstart: self.dtstart,
            last_mod: self.last_mod,
            organizer: self.organizer,
            recurid: self.recurid,
            seq: self.seq,
            status: self.status,
            summary: self.summary,
            url: self.url,
            rrule: self.rrule,
            attach: self.attach@,
            attendee: self.attendee@,
            categories: self.categories@,
            comment: self.comment@,
            contact: self.contact@,
            description: self.description@,
            exdate: self.exdate@,
            related: self.related@,
            rdate: self.rdate@,
            rstatus: self.rstatus@,
            color: self.color,
            image: self.image@,
            xprop: self.xprop@,
            iana: self.iana@,
        }
    }

    /// Nothing collected yet.
    pub open spec fn empty_parts() -> JournalParseParts {
        JournalParseParts {
            dtstamp: None,
            uid: None,
            class: None,
            created: None,
            dtstart: None,
            last_mod: None,
            organizer: None,
            recurid: None,
            seq: None,
            status: None,
            summary: None,
            url: None,
            rrule: None,
            attach: Seq::empty(),
            attendee: Seq::empty(),
            categories: Seq::empty(),
            comment: Seq::empty(),
            contact: Seq::empty(),
            description: Seq::empty(),
            exdate: Seq::empty(),
            related: Seq::empty(),
            rdate: Seq::empty(),
            rstatus: Seq::empty(),
            color: None,
            image: Seq::empty(),
            xprop: Seq::empty(),
            iana: Seq::empty(),
        }
    }

    /// A component with nothing collected yet.
    pub fn new() -> (r: JournalParseBuilder)
        ensures
            r.parts() == JournalParseBuilder::empty_parts(),
    {
        JournalParseBuilder {
            dtstamp: None,
            uid: None,
            class: None,
            created: None,
            dtstart: None,
            last_mod: None,
            organizer: None,
            recurid: None,
            seq: None,
            status: None,
            summary: None,
            url: None,
            rrule: None,
            attach: Vec::new(),
            attendee: Vec::new(),
            categories: Vec::new(),
            comment: Vec::new(),
            contact: Vec::new(),
            description: Vec::new(),
            exdate: Vec::new(),
            related: Vec::new(),
            rdate: Vec::new(),
            rstatus: Vec::new(),
            color: None,
            image: Vec::new(),
            xprop: Vec::new(),
            iana: Vec::new(),
        }
    }

    /// Reads one property into the component.
    pub fn ingest(&mut self, p: Property) -> (r: Result<(), PropertyError>)
        ensures
            match journal_ingest(old(self).parts(), p) {
                Ok(q) => r is Ok && final(self).parts() == q,
                Err(e) => r == Err::<(), PropertyError>(e) && final(self).parts() == old(self).parts(),
            },
    {
        reveal(journal_ingest);
        match p {
            Property::DateTimeStamp(x) => {
                if self.dtstamp.is_some() {
                    return Err(PropertyError::DuplicateProperty("DTSTAMP"));
                }
                self.dtstamp = Some(x);
                Ok(())
            },
            Property::Uid(x) => {
                if self.uid.is_some() {
                    return Err(PropertyError::DuplicateProperty("UID"));
                }
                self.uid = Some(x);
                Ok(())
            },
            Property::Classification(x) => {
                if self.class.is_some() {
                    return Err(PropertyError::DuplicateProperty("CLASS"));
                }
                self.class = Some(x);
                Ok(())
            },
            Property::DateTimeCreated(x) => {
                if self.created.is_some() {
                    return Err(PropertyError::DuplicateProperty("CREATED"));
                }
                self.created = Some(x);
                Ok(())
            },
            Property::DateTimeStart(x) => {
                if self.dtstart.is_some() {
                    return Err(PropertyError::DuplicateProperty("DTSTART"));
                }
                self.dtstart = Some(x);
                Ok(())
            },
            Property::LastModified(x) => {
                if self.last_mod.is_some() {
                    return Err(PropertyError::DuplicateProperty("LAST-MODIFIED"));
                }
                self.last_mod = Some(x);
                Ok(())
            },
            Property::Organizer(x) => {
                if self.organizer.is_some() {
                    return Err(PropertyError::DuplicateProperty("ORGANIZER"));
                }
                self.organizer = Some(x);
                Ok(())
            },
            Property::RecurrenceId(x) => {
                if self.recurid.is_some() {
                    return Err(PropertyError::DuplicateProperty("RECURRENCE-ID"));
                }
                self.recurid = Some(x);
                Ok(())
            },
            Property::Sequence(x) => {
                if self.seq.is_some() {
                    return Err(PropertyError::DuplicateProperty("SEQUENCE"));
                }
                self.seq = Some(x);
                Ok(())
            },
            Property::Status(x) => {
                if self.status.is_some() {
                    return Err(PropertyError::DuplicateProperty("STATUS"));
                }
                self.status = Some(x);
                Ok(())
            },
            Property::Summary(x) => {
                if self.summary.is_some() {
                    return Err(PropertyError::DuplicateProperty("SUMMARY"));
                }
                self.summary = Some(x);
                Ok(())
            },
            Property::UniformResourceLocator(x) => {
                if self.url.is_some() {
                    return Err(PropertyError::DuplicateProperty("URL"));
                }
                self.url = Some(x);
                Ok(())
            },
            Property::RRule(x) => {
                if self.rrule.is_some() {
                    return Err(PropertyError::DuplicateProperty("RRULE"));
                }
                self.rrule = Some(x);
                Ok(())
            },
            Property::Attachment(x) => {
                self.attach.push(x);
                Ok(())
            },
            Property::Attendee(x) => {
                self.attendee.push(x);
                Ok(())
            },
            Property::Categories(x) => {
                self.categories.push(x);
                Ok(())
            },
            Property::Comment(x) => {
                self.comment.push(x);
                Ok(())
            },
            Property::Contact(x) => {
                self.contact.push(x);
                Ok(())
            },
            Property::Description(x) => {
                self.description.push(x);
                Ok(())
            },
            Property::ExceptionDateTimes(x) => {
                self.exdate.push(x);
                Ok(())
            },
            Property::RelatedTo(x) => {
                self.related.push(x);
                Ok(())
            },
            Property::RecurrenceDateTimes(x) => {
                self.rdate.push(x);
                Ok(())
            },
            Property::RequestStatus(x) => {
                self.rstatus.push(x);
                Ok(())
            },
            Property::Color(x) => {
                if self.color.is_some() {
                    return Err(PropertyError::DuplicateProperty("COLOR"));
                }
                self.color = Some(x);
                Ok(())
            },
            Property::Image(x) => {
                self.image.push(x);
                Ok(())
            },
            Property::Xprop(x) => {
                self.xprop.push(x);
                Ok(())
            },
            Property::Iana(x) => {
                self.iana.push(x);
                Ok(())
            },
            _ => Err(PropertyError::UnexpectedProperty),
        }
    }

    /// Builds the component: the properties it requires must be there,
    /// and then it is checked as its builder checks it.
    pub fn finish(self) -> (r: Result<Journal, ComponentError>)
        ensures
            journal_missing(self.parts()) matches Some(n) ==> r == Err::<Journal, ComponentError>(ComponentError::MissingField(n)),
            journal_missing(self.parts()) is None ==> (r is Ok <==> journal_check(journal_parts_of(self.parts())) is Ok),
            journal_missing(self.parts()) is None ==> (r matches Err(e) ==> journal_check(journal_parts_of(self.parts())) == Err::<(), ComponentError>(e)),
            r matches Ok(c) ==> c.parts() == journal_parts_of(self.parts()),
    {
        let JournalParseBuilder { dtstamp, uid, class, created, dtstart, last_mod, organizer, recurid, seq, status, summary, url, rrule, attach, attendee, categories, comment, contact, description, exdate, related, rdate, rstatus, color, image, xprop, iana } = self;
        let dtstamp = match dtstamp {
            Some(x) => x,
            None => {
                return Err(ComponentError::MissingField("DTSTAMP"));
            },
        };
        let uid = match uid {
            Some(x) => x,
            None => {
                return Err(ComponentError::MissingField("UID"));
            },
        };
        let b = JournalBuilder {
            dtstamp,
            uid,
            class,
            created,
            dtstart,
            last_mod,
            organizer,
            recurid,
            seq,
            status,
            summary,
            url,
            rrule,
            attach,
            attendee,
            categories,
            comment,
            contact,
            description,
            exdate,
            related,
            rdate,
            rstatus,
            color,
            image,
            xprop,
            iana,
        };
        b.build()
    }
}

} // verus!
