//! Free or busy time (RFC 5545 §3.6.4).

use vstd::prelude::*;
use vstd::utf8::valid_utf8;
use std::marker::PhantomData;
use crate::components::{
    blocks, delimiter, first_err, lemma_blocks_valid, lemma_delimiter_valid, lemma_line_valid, lemma_lines_valid,
    lemma_opt_line_valid, line, lines, opt_line, start_checks, check_start, write_blocks, write_delimiter,
    write_line, write_lines, write_opt_line,
    ComponentError,
};
use crate::properties::component::change::{DateTimeStamp};
use crate::properties::component::datetime::{DateTimeEnd, DateTimeStart, FreeBusyTime};
use crate::properties::component::descriptive::{Comment};
use crate::properties::component::misc::{RequestStatus};
use crate::properties::component::relationship::{Attendee, Contact, Organizer, Uid, UniformResourceLocator};
use crate::properties::{Iana, Xprop};
use crate::properties::component::datetime::value_type_check;
use crate::values::datetime::DateOrDatetime;
use crate::values::Ical;
use crate::components::end_value;

use crate::ast::property::Property;
use crate::properties::PropertyError;
verus! {

/// The properties of a [`FreeBusy`] or of a [`FreeBusyBuilder`].
pub struct FreeBusyParts {
    /// `dtstamp`.
    pub dtstamp: Option<DateTimeStamp>,
    /// `uid`.
    pub uid: Option<Uid>,
    /// `contact`.
    pub contact: Option<Contact>,
    /// `dtstart`.
    pub dtstart: Option<DateTimeStart>,
    /// `dtend`.
    pub dtend: Option<DateTimeEnd>,
    /// `organizer`.
    pub organizer: Option<Organizer>,
    /// `url`.
    pub url: Option<UniformResourceLocator>,
    /// `attendee`.
    pub attendee: Seq<Attendee>,
    /// `comment`.
    pub comment: Seq<Comment>,
    /// `freebusy`.
    pub freebusy: Seq<FreeBusyTime>,
    /// `rstatus`.
    pub rstatus: Seq<RequestStatus>,
    /// `xprop`.
    pub xprop: Seq<Xprop>,
    /// `iana`.
    pub iana: Seq<Iana>,
}

/// A `VFREEBUSY` component (RFC 5545 §3.6.4): a request for free or busy
/// time, a reply to one, or a published set of busy times.
#[derive(Debug)]
pub struct FreeBusy {
    dtstamp: Option<DateTimeStamp>,
    uid: Option<Uid>,
    contact: Option<Contact>,
    dtstart: Option<DateTimeStart>,
    dtend: Option<DateTimeEnd>,
    organizer: Option<Organizer>,
    url: Option<UniformResourceLocator>,
    attendee: Vec<Attendee>,
    comment: Vec<Comment>,
    freebusy: Vec<FreeBusyTime>,
    rstatus: Vec<RequestStatus>,
    xprop: Vec<Xprop>,
    iana: Vec<Iana>,
}

/// Lines 0 of a written [`FreeBusy`].
pub open spec fn free_busy_lines_0(p: FreeBusyParts) -> Seq<u8> {
    opt_line(p.dtstamp)
        + opt_line(p.uid)
        + opt_line(p.contact)
        + opt_line(p.dtstart)
        + opt_line(p.dtend)
        + opt_line(p.organizer)
        + opt_line(p.url)
        + lines(p.attendee)
}

/// Lines 1 of a written [`FreeBusy`].
pub open spec fn free_busy_lines_1(p: FreeBusyParts) -> Seq<u8> {
    lines(p.comment)
        + lines(p.freebusy)
        + lines(p.rstatus)
        + lines(p.xprop)
        + lines(p.iana)
}

/// The lines of a written [`FreeBusy`], between its delimiters.
#[verifier::opaque]
pub open spec fn free_busy_body(p: FreeBusyParts) -> Seq<u8> {
    free_busy_lines_0(p) + free_busy_lines_1(p)
}

proof fn lemma_free_busy_lines_0_valid(p: FreeBusyParts)
    ensures
        valid_utf8(free_busy_lines_0(p)),
{
    lemma_opt_line_valid(p.dtstamp);
    lemma_opt_line_valid(p.uid);
    lemma_opt_line_valid(p.contact);
    lemma_opt_line_valid(p.dtstart);
    lemma_opt_line_valid(p.dtend);
    lemma_opt_line_valid(p.organizer);
    lemma_opt_line_valid(p.url);
    lemma_lines_valid(p.attendee);
    vstd::utf8::valid_utf8_concat(opt_line(p.dtstamp), opt_line(p.uid));
    vstd::utf8::valid_utf8_concat(opt_line(p.dtstamp) + opt_line(p.uid), opt_line(p.contact));
    vstd::utf8::valid_utf8_concat(opt_line(p.dtstamp) + opt_line(p.uid) + opt_line(p.contact), opt_line(p.dtstart));
    vstd::utf8::valid_utf8_concat(opt_line(p.dtstamp) + opt_line(p.uid) + opt_line(p.contact) + opt_line(p.dtstart), opt_line(p.dtend));
    vstd::utf8::valid_utf8_concat(opt_line(p.dtstamp) + opt_line(p.uid) + opt_line(p.contact) + opt_line(p.dtstart) + opt_line(p.dtend), opt_line(p.organizer));
    vstd::utf8::valid_utf8_concat(opt_line(p.dtstamp) + opt_line(p.uid) + opt_line(p.contact) + opt_line(p.dtstart) + opt_line(p.dtend) + opt_line(p.organizer), opt_line(p.url));
    vstd::utf8::valid_utf8_concat(opt_line(p.dtstamp) + opt_line(p.uid) + opt_line(p.contact) + opt_line(p.dtstart) + opt_line(p.dtend) + opt_line(p.organizer) + opt_line(p.url), lines(p.attendee));
}

proof fn lemma_free_busy_lines_1_valid(p: FreeBusyParts)
    ensures
        valid_utf8(free_busy_lines_1(p)),
{
    lemma_lines_valid(p.comment);
    lemma_lines_valid(p.freebusy);
    lemma_lines_valid(p.rstatus);
    lemma_lines_valid(p.xprop);
    lemma_lines_valid(p.iana);
    vstd::utf8::valid_utf8_concat(lines(p.comment), lines(p.freebusy));
    vstd::utf8::valid_utf8_concat(lines(p.comment) + lines(p.freebusy), lines(p.rstatus));
    vstd::utf8::valid_utf8_concat(lines(p.comment) + lines(p.freebusy) + lines(p.rstatus), lines(p.xprop));
    vstd::utf8::valid_utf8_concat(lines(p.comment) + lines(p.freebusy) + lines(p.rstatus) + lines(p.xprop), lines(p.iana));
}

proof fn lemma_free_busy_body_valid(p: FreeBusyParts)
    ensures
        valid_utf8(free_busy_body(p)),
{
    reveal(free_busy_body);
    lemma_free_busy_lines_0_valid(p);
    lemma_free_busy_lines_1_valid(p);
    vstd::utf8::valid_utf8_concat(free_busy_lines_0(p), free_busy_lines_1(p));
}

impl FreeBusy {
    /// The properties held.
    pub closed spec fn parts(&self) -> FreeBusyParts {
        FreeBusyParts {
            dtstamp: self.dtstamp,
            uid: self.uid,
            contact: self.contact,
            dtstart: self.dtstart,
            dtend: self.dtend,
            organizer: self.organizer,
            url: self.url,
            attendee: self.attendee@,
            comment: self.comment@,
            freebusy: self.freebusy@,
            rstatus: self.rstatus@,
            xprop: self.xprop@,
            iana: self.iana@,
        }
    }

    /// `dtstamp`, if set.
    pub fn dtstamp(&self) -> (r: Option<&DateTimeStamp>)
        ensures
            match r {
                Some(x) => self.parts().dtstamp == Some(*x),
                None => self.parts().dtstamp is None,
            },
    {
        self.dtstamp.as_ref()
    }

    /// `uid`, if set.
    pub fn uid(&self) -> (r: Option<&Uid>)
        ensures
            match r {
                Some(x) => self.parts().uid == Some(*x),
                None => self.parts().uid is None,
            },
    {
        self.uid.as_ref()
    }

    /// `contact`, if set.
    pub fn contact(&self) -> (r: Option<&Contact>)
        ensures
            match r {
                Some(x) => self.parts().contact == Some(*x),
                None => self.parts().contact is None,
            },
    {
        self.contact.as_ref()
    }

    /// `dtstart`, if set.
    pub fn dtstart(&self) -> (r: Option<&DateTimeStart>)
        ensures
            match r {
                Some(x) => self.parts().dtstart == Some(*x),
                None => self.parts().dtstart is None,
            },
    {
        self.dtstart.as_ref()
    }

    /// `dtend`, if set.
    pub fn dtend(&self) -> (r: Option<&DateTimeEnd>)
        ensures
            match r {
                Some(x) => self.parts().dtend == Some(*x),
                None => self.parts().dtend is None,
            },
    {
        self.dtend.as_ref()
    }

    /// `organizer`, if set.
    pub fn organizer(&self) -> (r: Option<&Organizer>)
        ensures
            match r {
                Some(x) => self.parts().organizer == Some(*x),
                None => self.parts().organizer is None,
            },
    {
        self.organizer.as_ref()
    }

    /// `url`, if set.
    pub fn url(&self) -> (r: Option<&UniformResourceLocator>)
        ensures
            match r {
                Some(x) => self.parts().url == Some(*x),
                None => self.parts().url is None,
            },
    {
        self.url.as_ref()
    }

    /// `attendee`, in order.
    pub fn attendee(&self) -> (r: &[Attendee])
        ensures
            r@ == self.parts().attendee,
    {
        self.attendee.as_slice()
    }

    /// `comment`, in order.
    pub fn comment(&self) -> (r: &[Comment])
        ensures
            r@ == self.parts().comment,
    {
        self.comment.as_slice()
    }

    /// `freebusy`, in order.
    pub fn freebusy(&self) -> (r: &[FreeBusyTime])
        ensures
            r@ == self.parts().freebusy,
    {
        self.freebusy.as_slice()
    }

    /// `rstatus`, in order.
    pub fn rstatus(&self) -> (r: &[RequestStatus])
        ensures
            r@ == self.parts().rstatus,
    {
        self.rstatus.as_slice()
    }

    /// `xprop`, in order.
    pub fn xprop(&self) -> (r: &[Xprop])
        ensures
            r@ == self.parts().xprop,
    {
        self.xprop.as_slice()
    }

    /// `iana`, in order.
    pub fn iana(&self) -> (r: &[Iana])
        ensures
            r@ == self.parts().iana,
    {
        self.iana.as_slice()
    }

    fn write_lines_0(&self, out: &mut Vec<u8>)
        ensures
            final(out)@ == old(out)@ + free_busy_lines_0(self.parts()),
    {
        write_opt_line(&self.dtstamp, out);
        write_opt_line(&self.uid, out);
        write_opt_line(&self.contact, out);
        write_opt_line(&self.dtstart, out);
        write_opt_line(&self.dtend, out);
        write_opt_line(&self.organizer, out);
        write_opt_line(&self.url, out);
        write_lines(self.attendee.as_slice(), out);
        assert(out@ =~= old(out)@ + free_busy_lines_0(self.parts()));
    }

    fn write_lines_1(&self, out: &mut Vec<u8>)
        ensures
            final(out)@ == old(out)@ + free_busy_lines_1(self.parts()),
    {
        write_lines(self.comment.as_slice(), out);
        write_lines(self.freebusy.as_slice(), out);
        write_lines(self.rstatus.as_slice(), out);
        write_lines(self.xprop.as_slice(), out);
        write_lines(self.iana.as_slice(), out);
        assert(out@ =~= old(out)@ + free_busy_lines_1(self.parts()));
    }

    fn write_body(&self, out: &mut Vec<u8>)
        ensures
            final(out)@ == old(out)@ + free_busy_body(self.parts()),
    {
        reveal(free_busy_body);
        self.write_lines_0(out);
        self.write_lines_1(out);
        assert(out@ =~= old(out)@ + free_busy_body(self.parts()));
    }
}

impl Ical for FreeBusy {
    /// `BEGIN:VFREEBUSY`, a line for each property, each nested component, and
    /// `END:VFREEBUSY`.
    open spec fn ical(&self) -> Seq<u8> {
        delimiter("BEGIN:", "VFREEBUSY") + free_busy_body(self.parts()) + delimiter("END:", "VFREEBUSY")
    }

    proof fn lemma_ical_valid(&self) {
        lemma_delimiter_valid("BEGIN:", "VFREEBUSY");
        lemma_delimiter_valid("END:", "VFREEBUSY");
        lemma_free_busy_body_valid(self.parts());
        vstd::utf8::valid_utf8_concat(delimiter("BEGIN:", "VFREEBUSY"), free_busy_body(self.parts()));
        vstd::utf8::valid_utf8_concat(
            delimiter("BEGIN:", "VFREEBUSY") + free_busy_body(self.parts()),
            delimiter("END:", "VFREEBUSY"),
        );
    }

    fn write_to(&self, out: &mut Vec<u8>) {
        write_delimiter("BEGIN:", "VFREEBUSY", out);
        self.write_body(out);
        write_delimiter("END:", "VFREEBUSY", out);
        assert(out@ =~= old(out)@ + self.ical());
    }
}

/// What building a [`FreeBusy`] checks: that `DTEND` has the type of
/// `DTSTART`.
pub open spec fn free_busy_check(p: FreeBusyParts) -> Result<(), ComponentError> {
    match p.dtstart {
        Some(s) => value_type_check(s.spec_value(), end_value(p.dtend), "DTEND"),
        None => Ok(()),
    }
}

/// Builds a [`FreeBusy`].
#[derive(Debug)]
pub struct FreeBusyBuilder {
    dtstamp: Option<DateTimeStamp>,
    uid: Option<Uid>,
    contact: Option<Contact>,
    dtstart: Option<DateTimeStart>,
    dtend: Option<DateTimeEnd>,
    organizer: Option<Organizer>,
    url: Option<UniformResourceLocator>,
    attendee: Vec<Attendee>,
    comment: Vec<Comment>,
    freebusy: Vec<FreeBusyTime>,
    rstatus: Vec<RequestStatus>,
    xprop: Vec<Xprop>,
    iana: Vec<Iana>,
}

impl FreeBusyBuilder {
    /// The properties held.
    pub closed spec fn parts(&self) -> FreeBusyParts {
        FreeBusyParts {
            dtstamp: self.dtstamp,
            uid: self.uid,
            contact: self.contact,
            dtstart: self.dtstart,
            dtend: self.dtend,
            organizer: self.organizer,
            url: self.url,
            attendee: self.attendee@,
            comment: self.comment@,
            freebusy: self.freebusy@,
            rstatus: self.rstatus@,
            xprop: self.xprop@,
            iana: self.iana@,
        }
    }

    /// Sets `dtstamp`.
    pub fn dtstamp(self, v: DateTimeStamp) -> (r: FreeBusyBuilder)
        ensures
            r.parts() == (FreeBusyParts { dtstamp: Some(v), ..self.parts() }),
    {
        let mut b = self;
        b.dtstamp = Some(v);
        b
    }

    /// Sets `uid`.
    pub fn uid(self, v: Uid) -> (r: FreeBusyBuilder)
        ensures
            r.parts() == (FreeBusyParts { uid: Some(v), ..self.parts() }),
    {
        let mut b = self;
        b.uid = Some(v);
        b
    }

    /// Sets `contact`.
    pub fn contact(self, v: Contact) -> (r: FreeBusyBuilder)
        ensures
            r.parts() == (FreeBusyParts { contact: Some(v), ..self.parts() }),
    {
        let mut b = self;
        b.contact = Some(v);
        b
    }

    /// Sets `dtstart`.
    pub fn dtstart(self, v: DateTimeStart) -> (r: FreeBusyBuilder)
        ensures
            r.parts() == (FreeBusyParts { dtstart: Some(v), ..self.parts() }),
    {
        let mut b = self;
        b.dtstart = Some(v);
        b
    }

    /// Sets `dtend`.
    pub fn dtend(self, v: DateTimeEnd) -> (r: FreeBusyBuilder)
        ensures
            r.parts() == (FreeBusyParts { dtend: Some(v), ..self.parts() }),
    {
        let mut b = self;
        b.dtend = Some(v);
        b
    }

    /// Sets `organizer`.
    pub fn organizer(self, v: Organizer) -> (r: FreeBusyBuilder)
        ensures
            r.parts() == (FreeBusyParts { organizer: Some(v), ..self.parts() }),
    {
        let mut b = self;
        b.organizer = Some(v);
        b
    }

    /// Sets `url`.
    pub fn url(self, v: UniformResourceLocator) -> (r: FreeBusyBuilder)
        ensures
            r.parts() == (FreeBusyParts { url: Some(v), ..self.parts() }),
    {
        let mut b = self;
        b.url = Some(v);
        b
    }

    /// Adds a `attendee`.
    pub fn attendee(self, v: Attendee) -> (r: FreeBusyBuilder)
        ensures
            r.parts() == (FreeBusyParts { attendee: self.parts().attendee.push(v), ..self.parts() }),
    {
        let mut b = self;
        b.attendee.push(v);
        b
    }

    /// Adds a `comment`.
    pub fn comment(self, v: Comment) -> (r: FreeBusyBuilder)
        ensures
            r.parts() == (FreeBusyParts { comment: self.parts().comment.push(v), ..self.parts() }),
    {
        let mut b = self;
        b.comment.push(v);
        b
    }

    /// Adds a `freebusy`.
    pub fn freebusy(self, v: FreeBusyTime) -> (r: FreeBusyBuilder)
        ensures
            r.parts() == (FreeBusyParts { freebusy: self.parts().freebusy.push(v), ..self.parts() }),
    {
        let mut b = self;
        b.freebusy.push(v);
        b
    }

    /// Adds a `rstatus`.
    pub fn rstatus(self, v: RequestStatus) -> (r: FreeBusyBuilder)
        ensures
            r.parts() == (FreeBusyParts { rstatus: self.parts().rstatus.push(v), ..self.parts() }),
    {
        let mut b = self;
        b.rstatus.push(v);
        b
    }

    /// Adds a `xprop`.
    pub fn xprop(self, v: Xprop) -> (r: FreeBusyBuilder)
        ensures
            r.parts() == (FreeBusyParts { xprop: self.parts().xprop.push(v), ..self.parts() }),
    {
        let mut b = self;
        b.xprop.push(v);
        b
    }

    /// Adds a `iana`.
    pub fn iana(self, v: Iana) -> (r: FreeBusyBuilder)
        ensures
            r.parts() == (FreeBusyParts { iana: self.parts().iana.push(v), ..self.parts() }),
    {
        let mut b = self;
        b.iana.push(v);
        b
    }

    /// Checks the rules that hold between the properties, and builds the
    /// component.
    pub fn build(self) -> (r: Result<FreeBusy, ComponentError>)
        ensures
            r is Ok <==> free_busy_check(self.parts()) is Ok,
            r matches Err(e) ==> free_busy_check(self.parts()) == Err::<(), ComponentError>(e),
            r matches Ok(c) ==> c.parts() == self.parts(),
    {
        let end = match &self.dtend {
            Some(e) => Some(e.value()),
            None => None,
        };
        if let Some(s) = &self.dtstart {
            if let Err(e) = s.cmp_value_type(end, "DTEND") {
                return Err(e);
            }
        }
        Ok(
            FreeBusy {
                dtstamp: self.dtstamp,
                uid: self.uid,
                contact: self.contact,
                dtstart: self.dtstart,
                dtend: self.dtend,
                organizer: self.organizer,
                url: self.url,
                attendee: self.attendee,
                comment: self.comment,
                freebusy: self.freebusy,
                rstatus: self.rstatus,
                xprop: self.xprop,
                iana: self.iana,
            }
        )
    }
}

impl FreeBusyBuilder {
    /// A builder with no properties yet.
    pub fn new() -> (r: FreeBusyBuilder)
        ensures
            r.parts() == (FreeBusyParts { dtstamp: None, uid: None, contact: None, dtstart: None, dtend: None, organizer: None, url: None, attendee: Seq::empty(), comment: Seq::empty(), freebusy: Seq::empty(), rstatus: Seq::empty(), xprop: Seq::empty(), iana: Seq::empty() }),
    {
        FreeBusyBuilder {
            dtstamp: None,
            uid: None,
            contact: None,
            dtstart: None,
            dtend: None,
            organizer: None,
            url: None,
            attendee: Vec::new(),
            comment: Vec::new(),
            freebusy: Vec::new(),
            rstatus: Vec::new(),
            xprop: Vec::new(),
            iana: Vec::new(),
        }
    }
}


/// The properties of a [`FreeBusyParseBuilder`], as values.
pub ghost struct FreeBusyParseParts {
    /// `dtstamp`.
    pub dtstamp: Option<DateTimeStamp>,
    /// `uid`.
    pub uid: Option<Uid>,
    /// `contact`.
    pub contact: Option<Contact>,
    /// `dtstart`.
    pub dtstart: Option<DateTimeStart>,
    /// `dtend`.
    pub dtend: Option<DateTimeEnd>,
    /// `organizer`.
    pub organizer: Option<Organizer>,
    /// `url`.
    pub url: Option<UniformResourceLocator>,
    /// `attendee`.
    pub attendee: Seq<Attendee>,
    /// `comment`.
    pub comment: Seq<Comment>,
    /// `freebusy`.
    pub freebusy: Seq<FreeBusyTime>,
    /// `rstatus`.
    pub rstatus: Seq<RequestStatus>,
    /// `xprop`.
    pub xprop: Seq<Xprop>,
    /// `iana`.
    pub iana: Seq<Iana>,
}

/// Collects the content lines of a component being read, in the order
/// they come, and builds it at its end.
#[derive(Debug)]
pub struct FreeBusyParseBuilder {
    dtstamp: Option<DateTimeStamp>,
    uid: Option<Uid>,
    contact: Option<Contact>,
    dtstart: Option<DateTimeStart>,
    dtend: Option<DateTimeEnd>,
    organizer: Option<Organizer>,
    url: Option<UniformResourceLocator>,
    attendee: Vec<Attendee>,
    comment: Vec<Comment>,
    freebusy: Vec<FreeBusyTime>,
    rstatus: Vec<RequestStatus>,
    xprop: Vec<Xprop>,
    iana: Vec<Iana>,
}

/// What reading the property `p` does to the properties `q` collected so
/// far: a property held once may not come twice, one held many times is
/// added, and one the component doesn't hold is refused.
#[verifier::opaque]
pub open spec fn free_busy_ingest(q: FreeBusyParseParts, p: Property) -> Result<FreeBusyParseParts, PropertyError> {
    match p {
        Property::DateTimeStamp(x) => if q.dtstamp is Some {
            Err(PropertyError::DuplicateProperty("DTSTAMP"))
        } else {
            Ok(FreeBusyParseParts { dtstamp: Some(x), ..q })
        },
        Property::Uid(x) => if q.uid is Some {
            Err(PropertyError::DuplicateProperty("UID"))
        } else {
            Ok(FreeBusyParseParts { uid: Some(x), ..q })
        },
        Property::Contact(x) => if q.contact is Some {
            Err(PropertyError::DuplicateProperty("CONTACT"))
        } else {
            Ok(FreeBusyParseParts { contact: Some(x), ..q })
        },
        Property::DateTimeStart(x) => if q.dtstart is Some {
            Err(PropertyError::DuplicateProperty("DTSTART"))
        } else {
            Ok(FreeBusyParseParts { dtstart: Some(x), ..q })
        },
        Property::DateTimeEnd(x) => if q.dtend is Some {
            Err(PropertyError::DuplicateProperty("DTEND"))
        } else {
            Ok(FreeBusyParseParts { dtend: Some(x), ..q })
        },
        Property::Organizer(x) => if q.organizer is Some {
            Err(PropertyError::DuplicateProperty("ORGANIZER"))
        } else {
            Ok(FreeBusyParseParts { organizer: Some(x), ..q })
        },
        Property::UniformResourceLocator(x) => if q.url is Some {
            Err(PropertyError::DuplicateProperty("URL"))
        } else {
            Ok(FreeBusyParseParts { url: Some(x), ..q })
        },
        Property::Attendee(x) => Ok(FreeBusyParseParts { attendee: q.attendee.push(x), ..q }),
        Property::Comment(x) => Ok(FreeBusyParseParts { comment: q.comment.push(x), ..q }),
        Property::FreeBusyTime(x) => Ok(FreeBusyParseParts { freebusy: q.freebusy.push(x), ..q }),
        Property::RequestStatus(x) => Ok(FreeBusyParseParts { rstatus: q.rstatus.push(x), ..q }),
        Property::Xprop(x) => Ok(FreeBusyParseParts { xprop: q.xprop.push(x), ..q }),
        Property::Iana(x) => Ok(FreeBusyParseParts { iana: q.iana.push(x), ..q }),
        _ => Err(PropertyError::UnexpectedProperty),
    }
}

/// The properties `props` read one after the other into an empty
/// [`FreeBusyParseBuilder`], or the first refusal.
pub open spec fn free_busy_fold(props: Seq<Property>) -> Result<FreeBusyParseParts, PropertyError>
    decreases props.len(),
{
    if props.len() == 0 {
        Ok(FreeBusyParseBuilder::empty_parts())
    } else {
        match free_busy_fold(props.drop_last()) {
            Ok(q) => free_busy_ingest(q, props.last()),
            Err(e) => Err(e),
        }
    }
}

/// The properties `q` holds, once those it requires are there.
pub open spec fn free_busy_parts_of(q: FreeBusyParseParts) -> FreeBusyParts {
    FreeBusyParts {
        dtstamp: q.dtstamp,
        uid: q.uid,
        contact: q.contact,
        dtstart: q.dtstart,
        dtend: q.dtend,
        organizer: q.organizer,
        url: q.url,
        attendee: q.attendee,
        comment: q.comment,
        freebusy: q.freebusy,
        rstatus: q.rstatus,
        xprop: q.xprop,
        iana: q.iana,
    }
}

/// The first property `q` requires and lacks, if any.
pub open spec fn free_busy_missing(q: FreeBusyParseParts) -> Option<&'static str> {
    None
}

impl FreeBusyParseBuilder {
    /// The properties collected.
    pub closed spec fn parts(&self) -> FreeBusyParseParts {
        FreeBusyParseParts {
            dtstamp: self.dtstamp,
            uid: self.uid,
            contact: self.contact,
            dtstart: self.dtstart,
            dtend: self.dtend,
            organizer: self.organizer,
            url: self.url,
            attendee: self.attendee@,
            comment: self.comment@,
            freebusy: self.freebusy@,
            rstatus: self.rstatus@,
            xprop: self.xprop@,
            iana: self.iana@,
        }
    }

    /// Nothing collected yet.
    pub open spec fn empty_parts() -> FreeBusyParseParts {
        FreeBusyParseParts {
            dtstamp: None,
            uid: None,
            contact: None,
            dtstart: None,
            dtend: None,
            organizer: None,
            url: None,
            attendee: Seq::empty(),
            comment: Seq::empty(),
            freebusy: Seq::empty(),
            rstatus: Seq::empty(),
            xprop: Seq::empty(),
            iana: Seq::empty(),
        }
    }

    /// A component with nothing collected yet.
    pub fn new() -> (r: FreeBusyParseBuilder)
        ensures
            r.parts() == FreeBusyParseBuilder::empty_parts(),
    {
        FreeBusyParseBuilder {
            dtstamp: None,
            uid: None,
            contact: None,
            dtstart: None,
            dtend: None,
            organizer: None,
            url: None,
            attendee: Vec::new(),
            comment: Vec::new(),
            freebusy: Vec::new(),
            rstatus: Vec::new(),
            xprop: Vec::new(),
            iana: Vec::new(),
        }
    }

    /// Reads one property into the component.
    pub fn ingest(&mut self, p: Property) -> (r: Result<(), PropertyError>)
        ensures
            match free_busy_ingest(old(self).parts(), p) {
                Ok(q) => r is Ok && final(self).parts() == q,
                Err(e) => r == Err::<(), PropertyError>(e) && final(self).parts() == old(self).parts(),
            },
    {
        reveal(free_busy_ingest);
        match p {
            Property::DateTimeStamp(x) => {
                if self.dtstamp.is_some() {
                    return Err(PropertyError::DuplicateProperty("DTSTAMP"));
                }
                self.dtstamp = Some(x);
                Ok(())
            },
            Property::Uid(x) => {
                if self.uid.is_some() {
                    return Err(PropertyError::DuplicateProperty("UID"));
                }
                self.uid = Some(x);
                Ok(())
            },
            Property::Contact(x) => {
                if self.contact.is_some() {
                    return Err(PropertyError::DuplicateProperty("CONTACT"));
                }
                self.contact = Some(x);
                Ok(())
            },
            Property::DateTimeStart(x) => {
                if self.dtstart.is_some() {
                    return Err(PropertyError::DuplicateProperty("DTSTART"));
                }
                self.dtstart = Some(x);
                Ok(())
            },
            Property::DateTimeEnd(x) => {
                if self.dtend.is_some() {
                    return Err(PropertyError::DuplicateProperty("DTEND"));
                }
                self.dtend = Some(x);
                Ok(())
            },
            Property::Organizer(x) => {
                if self.organizer.is_some() {
                    return Err(PropertyError::DuplicateProperty("ORGANIZER"));
                }
                self.organizer = Some(x);
                Ok(())
            },
            Property::UniformResourceLocator(x) => {
                if self.url.is_some() {
                    return Err(PropertyError::DuplicateProperty("URL"));
                }
                self.url = Some(x);
                Ok(())
            },
            Property::Attendee(x) => {
                self.attendee.push(x);
                Ok(())
            },
            Property::Comment(x) => {
                self.comment.push(x);
                Ok(())
            },
            Property::FreeBusyTime(x) => {
                self.freebusy.push(x);
                Ok(())
            },
            Property::RequestStatus(x) => {
                self.rstatus.push(x);
                Ok(())
            },
            Property::Xprop(x) => {
                self.xprop.push(x);
                Ok(())
            },
            Property::Iana(x) => {
                self.iana.push(x);
                Ok(())
            },
            _ => Err(PropertyError::UnexpectedProperty),
        }
    }

    /// Builds the component: the properties it requires must be there,
    /// and then it is checked as its builder checks it.
    pub fn finish(self) -> (r: Result<FreeBusy, ComponentError>)
        ensures
            free_busy_missing(self.parts()) matches Some(n) ==> r == Err::<FreeBusy, ComponentError>(ComponentError::MissingField(n)),
            free_busy_missing(self.parts()) is None ==> (r is Ok <==> free_busy_check(free_busy_parts_of(self.parts())) is Ok),
            free_busy_missing(self.parts()) is None ==> (r matches Err(e) ==> free_busy_check(free_busy_parts_of(self.parts())) == Err::<(), ComponentError>(e)),
            r matches Ok(c) ==> c.parts() == free_busy_parts_of(self.parts()),
    {
        let FreeBusyParseBuilder { dtstamp, uid, contact, dtstart, dtend, organizer, url, attendee, comment, freebusy, rstatus, xprop, iana } = self;
        let b = FreeBusyBuilder {
            dtstamp,
            uid,
            contact,
            dtstart,
            dtend,
            organizer,
            url,
            attendee,
            comment,
            freebusy,
            rstatus,
            xprop,
            iana,
        };
        b.build()
    }
}

} // verus!
