//! Alarms (RFC 5545 §3.6.6, with the extensions of RFC 9074).

use vstd::prelude::*;
use vstd::utf8::valid_utf8;
use std::marker::PhantomData;
use crate::components::{
    blocks, delimiter, first_err, lemma_blocks_valid, lemma_delimiter_valid, lemma_line_valid, lemma_lines_valid,
    lemma_opt_line_valid, line, lines, opt_line, start_checks, check_start, write_blocks, write_delimiter,
    write_line, write_lines, write_opt_line,
    ComponentError,
};
use crate::properties::component::alarm_ext::{Acknowledged, Proximity};
use crate::properties::component::alarms::{Action, Repeat, Trigger};
use crate::properties::component::datetime::{Duration};
use crate::properties::component::descriptive::{Attachment, Description, Summary};
use crate::properties::component::relationship::{Attendee, RelatedTo, Uid};
use crate::properties::{Iana, Xprop};
use crate::components::vlocation::VLocation;
use crate::properties::component::datetime::value_type_check;
use crate::values::datetime::DateOrDatetime;
use crate::values::Ical;
use crate::properties::component::alarms::ActionEnum;
use crate::properties::SharedParams;

use crate::ast::property::Property;
use crate::properties::PropertyError;
verus! {

/// The properties of an [`Alarm`].
pub struct AlarmParts {
    /// `action`.
    pub action: Action,
    /// `trigger`.
    pub trigger: Trigger,
    /// `duration`.
    pub duration: Option<Duration>,
    /// `repeat`.
    pub repeat: Option<Repeat>,
    /// `description`.
    pub description: Option<Description>,
    /// `summary`.
    pub summary: Option<Summary>,
    /// `attendee`.
    pub attendee: Seq<Attendee>,
    /// `attach`.
    pub attach: Seq<Attachment>,
    /// `uid`.
    pub uid: Option<Uid>,
    /// `related`.
    pub related: Seq<RelatedTo>,
    /// `acknowledged`.
    pub acknowledged: Option<Acknowledged>,
    /// `proximity`.
    pub proximity: Option<Proximity>,
    /// `xprop`.
    pub xprop: Seq<Xprop>,
    /// `iana`.
    pub iana: Seq<Iana>,
    /// `locations`.
    pub locations: Seq<VLocation>,
}

/// A `VALARM` component (RFC 5545 §3.6.6): a reminder for an event or a
/// to-do, with the extensions of RFC 9074.
#[derive(Debug)]
pub struct Alarm {
    action: Action,
    trigger: Trigger,
    duration: Option<Duration>,
    repeat: Option<Repeat>,
    description: Option<Description>,
    summary: Option<Summary>,
    attendee: Vec<Attendee>,
    attach: Vec<Attachment>,
    uid: Option<Uid>,
    related: Vec<RelatedTo>,
    acknowledged: Option<Acknowledged>,
    proximity: Option<Proximity>,
    xprop: Vec<Xprop>,
    iana: Vec<Iana>,
    locations: Vec<VLocation>,
}

/// Lines 0 of a written [`Alarm`].
pub open spec fn alarm_lines_0(p: AlarmParts) -> Seq<u8> {
    line(p.action)
        + line(p.trigger)
        + opt_line(p.duration)
        + opt_line(p.repeat)
        + opt_line(p.description)
        + opt_line(p.summary)
        + lines(p.attendee)
        + lines(p.attach)
}

/// Lines 1 of a written [`Alarm`].
pub open spec fn alarm_lines_1(p: AlarmParts) -> Seq<u8> {
    opt_line(p.uid)
        + lines(p.related)
        + opt_line(p.acknowledged)
        + opt_line(p.proximity)
        + lines(p.xprop)
        + lines(p.iana)
        + blocks(p.locations)
}

/// The lines of a written [`Alarm`], between its delimiters.
#[verifier::opaque]
pub open spec fn alarm_body(p: AlarmParts) -> Seq<u8> {
    alarm_lines_0(p) + alarm_lines_1(p)
}

proof fn lemma_alarm_lines_0_valid(p: AlarmParts)
    ensures
        valid_utf8(alarm_lines_0(p)),
{
    lemma_line_valid(p.action);
    lemma_line_valid(p.trigger);
    lemma_opt_line_valid(p.duration);
    lemma_opt_line_valid(p.repeat);
    lemma_opt_line_valid(p.description);
    lemma_opt_line_valid(p.summary);
    lemma_lines_valid(p.attendee);
    lemma_lines_valid(p.attach);
    vstd::utf8::valid_utf8_concat(line(p.action), line(p.trigger));
    vstd::utf8::valid_utf8_concat(line(p.action) + line(p.trigger), opt_line(p.duration));
    vstd::utf8::valid_utf8_concat(line(p.action) + line(p.trigger) + opt_line(p.duration), opt_line(p.repeat));
    vstd::utf8::valid_utf8_concat(line(p.action) + line(p.trigger) + opt_line(p.duration) + opt_line(p.repeat), opt_line(p.description));
    vstd::utf8::valid_utf8_concat(line(p.action) + line(p.trigger) + opt_line(p.duration) + opt_line(p.repeat) + opt_line(p.description), opt_line(p.summary));
    vstd::utf8::valid_utf8_concat(line(p.action) + line(p.trigger) + opt_line(p.duration) + opt_line(p.repeat) + opt_line(p.description) + opt_line(p.summary), lines(p.attendee));
    vstd::utf8::valid_utf8_concat(line(p.action) + line(p.trigger) + opt_line(p.duration) + opt_line(p.repeat) + opt_line(p.description) + opt_line(p.summary) + lines(p.attendee), lines(p.attach));
}

proof fn lemma_alarm_lines_1_valid(p: AlarmParts)
    ensures
        valid_utf8(alarm_lines_1(p)),
{
    lemma_opt_line_valid(p.uid);
    lemma_lines_valid(p.related);
    lemma_opt_line_valid(p.acknowledged);
    lemma_opt_line_valid(p.proximity);
    lemma_lines_valid(p.xprop);
    lemma_lines_valid(p.iana);
    lemma_blocks_valid(p.locations);
    vstd::utf8::valid_utf8_concat(opt_line(p.uid), lines(p.related));
    vstd::utf8::valid_utf8_concat(opt_line(p.uid) + lines(p.related), opt_line(p.acknowledged));
    vstd::utf8::valid_utf8_concat(opt_line(p.uid) + lines(p.related) + opt_line(p.acknowledged), opt_line(p.proximity));
    vstd::utf8::valid_utf8_concat(opt_line(p.uid) + lines(p.related) + opt_line(p.acknowledged) + opt_line(p.proximity), lines(p.xprop));
    vstd::utf8::valid_utf8_concat(opt_line(p.uid) + lines(p.related) + opt_line(p.acknowledged) + opt_line(p.proximity) + lines(p.xprop), lines(p.iana));
    vstd::utf8::valid_utf8_concat(opt_line(p.uid) + lines(p.related) + opt_line(p.acknowledged) + opt_line(p.proximity) + lines(p.xprop) + lines(p.iana), blocks(p.locations));
}

proof fn lemma_alarm_body_valid(p: AlarmParts)
    ensures
        valid_utf8(alarm_body(p)),
{
    reveal(alarm_body);
    lemma_alarm_lines_0_valid(p);
    lemma_alarm_lines_1_valid(p);
    vstd::utf8::valid_utf8_concat(alarm_lines_0(p), alarm_lines_1(p));
}

impl Alarm {
    /// The properties held.
    pub closed spec fn parts(&self) -> AlarmParts {
        AlarmParts {
            action: self.action,
            trigger: self.trigger,
            duration: self.duration,
            repeat: self.repeat,
            description: self.description,
            summary: self.summary,
            attendee: self.attendee@,
            attach: self.attach@,
            uid: self.uid,
            related: self.related@,
            acknowledged: self.acknowledged,
            proximity: self.proximity,
            xprop: self.xprop@,
            iana: self.iana@,
            locations: self.locations@,
        }
    }

    /// `action`.
    pub fn action(&self) -> (r: &Action)
        ensures
            *r == self.parts().action,
    {
        &self.action
    }

    /// `trigger`.
    pub fn trigger(&self) -> (r: &Trigger)
        ensures
            *r == self.parts().trigger,
    {
        &self.trigger
    }

    /// `duration`, if set.
    pub fn duration(&self) -> (r: Option<&Duration>)
        ensures
            match r {
                Some(x) => self.parts().duration == Some(*x),
                None => self.parts().duration is None,
            },
    {
        self.duration.as_ref()
    }

    /// `repeat`, if set.
    pub fn repeat(&self) -> (r: Option<&Repeat>)
        ensures
            match r {
                Some(x) => self.parts().repeat == Some(*x),
                None => self.parts().repeat is None,
            },
    {
        self.repeat.as_ref()
    }

    /// `description`, if set.
    pub fn description(&self) -> (r: Option<&Description>)
        ensures
            match r {
                Some(x) => self.parts().description == Some(*x),
                None => self.parts().description is None,
            },
    {
        self.description.as_ref()
    }

    /// `summary`, if set.
    pub fn summary(&self) -> (r: Option<&Summary>)
        ensures
            match r {
                Some(x) => self.parts().summary == Some(*x),
                None => self.parts().summary is None,
            },
    {
        self.summary.as_ref()
    }

    /// `attendee`, in order.
    pub fn attendee(&self) -> (r: &[Attendee])
        ensures
            r@ == self.parts().attendee,
    {
        self.attendee.as_slice()
    }

    /// `attach`, in order.
    pub fn attach(&self) -> (r: &[Attachment])
        ensures
            r@ == self.parts().attach,
    {
        self.attach.as_slice()
    }

    /// `uid`, if set.
    pub fn uid(&self) -> (r: Option<&Uid>)
        ensures
            match r {
                Some(x) => self.parts().uid == Some(*x),
                None => self.parts().uid is None,
            },
    {
        self.uid.as_ref()
    }

    /// `related`, in order.
    pub fn related(&self) -> (r: &[RelatedTo])
        ensures
            r@ == self.parts().related,
    {
        self.related.as_slice()
    }

    /// `acknowledged`, if set.
    pub fn acknowledged(&self) -> (r: Option<&Acknowledged>)
        ensures
            match r {
                Some(x) => self.parts().acknowledged == Some(*x),
                None => self.parts().acknowledged is None,
            },
    {
        self.acknowledged.as_ref()
    }

    /// `proximity`, if set.
    pub fn proximity(&self) -> (r: Option<&Proximity>)
        ensures
            match r {
                Some(x) => self.parts().proximity == Some(*x),
                None => self.parts().proximity is None,
            },
    {
        self.proximity.as_ref()
    }

    /// `locations`, in order.
    pub fn locations(&self) -> (r: &[VLocation])
        ensures
            r@ == self.parts().locations,
    {
        self.locations.as_slice()
    }

    /// `xprop`, in order.
    pub fn xprop(&self) -> (r: &[Xprop])
        ensures
            r@ == self.parts().xprop,
    {
        self.xprop.as_slice()
    }

    /// `iana`, in order.
    pub fn iana(&self) -> (r: &[Iana])
        ensures
            r@ == self.parts().iana,
    {
        self.iana.as_slice()
    }

    fn write_lines_0(&self, out: &mut Vec<u8>)
        ensures
            final(out)@ == old(out)@ + alarm_lines_0(self.parts()),
    {
        write_line(&self.action, out);
        write_line(&self.trigger, out);
        write_opt_line(&self.duration, out);
        write_opt_line(&self.repeat, out);
        write_opt_line(&self.description, out);
        write_opt_line(&self.summary, out);
        write_lines(self.attendee.as_slice(), out);
        write_lines(self.attach.as_slice(), out);
        assert(out@ =~= old(out)@ + alarm_lines_0(self.parts()));
    }

    fn write_lines_1(&self, out: &mut Vec<u8>)
        ensures
            final(out)@ == old(out)@ + alarm_lines_1(self.parts()),
    {
        write_opt_line(&self.uid, out);
        write_lines(self.related.as_slice(), out);
        write_opt_line(&self.acknowledged, out);
        write_opt_line(&self.proximity, out);
        write_lines(self.xprop.as_slice(), out);
        write_lines(self.iana.as_slice(), out);
        write_blocks(self.locations.as_slice(), out);
        assert(out@ =~= old(out)@ + alarm_lines_1(self.parts()));
    }

    fn write_body(&self, out: &mut Vec<u8>)
        ensures
            final(out)@ == old(out)@ + alarm_body(self.parts()),
    {
        reveal(alarm_body);
        self.write_lines_0(out);
        self.write_lines_1(out);
        assert(out@ =~= old(out)@ + alarm_body(self.parts()));
    }
}

impl Ical for Alarm {
    /// `BEGIN:VALARM`, a line for each property, each nested component, and
    /// `END:VALARM`.
    open spec fn ical(&self) -> Seq<u8> {
        delimiter("BEGIN:", "VALARM") + alarm_body(self.parts()) + delimiter("END:", "VALARM")
    }

    proof fn lemma_ical_valid(&self) {
        lemma_delimiter_valid("BEGIN:", "VALARM");
        lemma_delimiter_valid("END:", "VALARM");
        lemma_alarm_body_valid(self.parts());
        vstd::utf8::valid_utf8_concat(delimiter("BEGIN:", "VALARM"), alarm_body(self.parts()));
        vstd::utf8::valid_utf8_concat(
            delimiter("BEGIN:", "VALARM") + alarm_body(self.parts()),
            delimiter("END:", "VALARM"),
        );
    }

    fn write_to(&self, out: &mut Vec<u8>) {
        write_delimiter("BEGIN:", "VALARM", out);
        self.write_body(out);
        write_delimiter("END:", "VALARM", out);
        assert(out@ =~= old(out)@ + self.ical());
    }
}

/// What reading an alarm from content lines checks, in order: `DURATION`
/// and `REPEAT` come together; an `AUDIO` alarm has at most one `ATTACH`, a
/// `DISPLAY` alarm has a `DESCRIPTION`, an `EMAIL` alarm has a
/// `DESCRIPTION`, a `SUMMARY` and an `ATTENDEE`; and locations come with a
/// `PROXIMITY`.
pub open spec fn alarm_check(p: AlarmParts) -> Result<(), ComponentError> {
    if p.duration is Some && p.repeat is None {
        Err(ComponentError::Requires("DURATION", "REPEAT"))
    } else if p.repeat is Some && p.duration is None {
        Err(ComponentError::Requires("REPEAT", "DURATION"))
    } else if p.action.spec_value() is Audio && p.attach.len() > 1 {
        Err(ComponentError::NotAllowed("more than one ATTACH", "ACTION is AUDIO"))
    } else if (p.action.spec_value() is Display || p.action.spec_value() is Email) && p.description is None {
        Err(ComponentError::MissingField("DESCRIPTION"))
    } else if p.action.spec_value() is Email && p.summary is None {
        Err(ComponentError::MissingField("SUMMARY"))
    } else if p.action.spec_value() is Email && p.attendee.len() == 0 {
        Err(ComponentError::RequiresAtLeastOne("VALARM", "ATTENDEE"))
    } else if !(p.locations.len() == 0 || p.proximity is Some) {
        Err(ComponentError::Requires("VLOCATION", "PROXIMITY"))
    } else {
        Ok(())
    }
}

/// A `DISPLAY` alarm shows a text and an `EMAIL` alarm sends one, so each
/// must have a `DESCRIPTION`: an alarm with either action and none is
/// refused, and for that very reason whenever its `DURATION` and `REPEAT`
/// come together (RFC 5545 §3.6.6).
pub proof fn lemma_alarm_needs_description(p: AlarmParts)
    requires
        p.action.spec_value() is Display || p.action.spec_value() is Email,
        p.description is None,
    ensures
        alarm_check(p) is Err,
        (p.duration is Some <==> p.repeat is Some) ==> alarm_check(p) == Err::<(), ComponentError>(
            ComponentError::MissingField("DESCRIPTION"),
        ),
{
}

/// An `EMAIL` alarm sends a message, so it must have a subject and at
/// least one recipient: one without a `SUMMARY`, or without any
/// `ATTENDEE`, is refused (RFC 5545 §3.6.6).
pub proof fn lemma_email_alarm_needs_summary_and_attendee(p: AlarmParts)
    requires
        p.action.spec_value() is Email,
        p.summary is None || p.attendee.len() == 0,
    ensures
        alarm_check(p) is Err,
{
}

/// Which alarms pass their checks (RFC 5545 §3.6.6): `DURATION` and
/// `REPEAT` come together or not at all, an `AUDIO` alarm has one
/// `ATTACH` at most, a `DISPLAY` or `EMAIL` alarm has a `DESCRIPTION`, an
/// `EMAIL` alarm has a `SUMMARY` and an `ATTENDEE`, and an alarm with a
/// `VLOCATION` has a `PROXIMITY` (RFC 9074).
pub proof fn lemma_alarm_accepted(p: AlarmParts)
    ensures
        alarm_check(p) is Ok <==> {
            &&& (p.duration is Some <==> p.repeat is Some)
            &&& (p.action.spec_value() is Audio ==> p.attach.len() <= 1)
            &&& (p.action.spec_value() is Display || p.action.spec_value() is Email ==> p.description is Some)
            &&& (p.action.spec_value() is Email ==> p.summary is Some && p.attendee.len() > 0)
            &&& (p.locations.len() > 0 ==> p.proximity is Some)
        },
{
}

/// What every kind of alarm builder sets the same way.
pub struct AlarmCommonParts {
    /// `duration`.
    pub duration: Option<Duration>,
    /// `repeat`.
    pub repeat: Option<Repeat>,
    /// `uid`.
    pub uid: Option<Uid>,
    /// `related`.
    pub related: Seq<RelatedTo>,
    /// `acknowledged`.
    pub acknowledged: Option<Acknowledged>,
    /// `proximity`.
    pub proximity: Option<Proximity>,
    /// `locations`.
    pub locations: Seq<VLocation>,
    /// `xprop`.
    pub xprop: Seq<Xprop>,
    /// `iana`.
    pub iana: Seq<Iana>,
}

/// The parts every alarm builder holds.
#[derive(Debug)]
struct AlarmCommon {
    duration: Option<Duration>,
    repeat: Option<Repeat>,
    uid: Option<Uid>,
    related: Vec<RelatedTo>,
    acknowledged: Option<Acknowledged>,
    proximity: Option<Proximity>,
    locations: Vec<VLocation>,
    xprop: Vec<Xprop>,
    iana: Vec<Iana>,
}

impl AlarmCommon {
    /// The properties held.
    closed spec fn parts(&self) -> AlarmCommonParts {
        AlarmCommonParts {
            duration: self.duration,
            repeat: self.repeat,
            uid: self.uid,
            related: self.related@,
            acknowledged: self.acknowledged,
            proximity: self.proximity,
            locations: self.locations@,
            xprop: self.xprop@,
            iana: self.iana@,
        }
    }

    /// No common part set.
    pub open spec fn new_parts() -> AlarmCommonParts {
        AlarmCommonParts {
            duration: None,
            repeat: None,
            uid: None,
            related: Seq::empty(),
            acknowledged: None,
            proximity: None,
            locations: Seq::empty(),
            xprop: Seq::empty(),
            iana: Seq::empty(),
        }
    }

    fn new() -> (r: AlarmCommon)
        ensures
            r.parts() == AlarmCommon::new_parts(),
    {
        AlarmCommon {
            duration: None,
            repeat: None,
            uid: None,
            related: Vec::new(),
            acknowledged: None,
            proximity: None,
            locations: Vec::new(),
            xprop: Vec::new(),
            iana: Vec::new(),
        }
    }

    /// The alarm, unless it has locations but no `PROXIMITY`.
    fn finish(
        self,
        action: Action,
        trigger: Trigger,
        description: Option<Description>,
        summary: Option<Summary>,
        attendee: Vec<Attendee>,
        attach: Vec<Attachment>,
    ) -> (r: Result<Alarm, ComponentError>)
        ensures
            r is Ok <==> proximity_given(self.parts()),
            !proximity_given(self.parts()) ==> r == Err::<Alarm, ComponentError>(
                ComponentError::Requires("VLOCATION", "PROXIMITY"),
            ),
            r matches Ok(a) ==> a.parts() == alarm_parts(
                self.parts(),
                action,
                trigger,
                description,
                summary,
                attendee@,
                attach@,
            ),
    {
        if self.locations.len() > 0 && self.proximity.is_none() {
            return Err(ComponentError::Requires("VLOCATION", "PROXIMITY"));
        }
        let a = Alarm {
            action,
            trigger,
            duration: self.duration,
            repeat: self.repeat,
            description,
            summary,
            attendee,
            attach,
            uid: self.uid,
            related: self.related,
            acknowledged: self.acknowledged,
            proximity: self.proximity,
            xprop: self.xprop,
            iana: self.iana,
            locations: self.locations,
        };
        Ok(a)
    }
}

/// Whether the alarm's locations, if it has any, come with a `PROXIMITY`.
pub open spec fn proximity_given(c: AlarmCommonParts) -> bool {
    c.locations.len() == 0 || c.proximity is Some
}

/// The parts of the alarm that the common parts `c` and the rest make.
pub open spec fn alarm_parts(
    c: AlarmCommonParts,
    action: Action,
    trigger: Trigger,
    description: Option<Description>,
    summary: Option<Summary>,
    attendee: Seq<Attendee>,
    attach: Seq<Attachment>,
) -> AlarmParts {
    AlarmParts {
        action,
        trigger,
        duration: c.duration,
        repeat: c.repeat,
        description,
        summary,
        attendee,
        attach,
        uid: c.uid,
        related: c.related,
        acknowledged: c.acknowledged,
        proximity: c.proximity,
        xprop: c.xprop,
        iana: c.iana,
        locations: c.locations,
    }
}

/// The parts an [`AudioAlarmBuilder`] holds.
pub struct AudioAlarmParts {
    /// `trigger`.
    pub trigger: Trigger,
    /// `attach`.
    pub attach: Seq<Attachment>,
    /// What every alarm builder holds.
    pub common: AlarmCommonParts,
}

/// Builds an alarm that plays a sound.
#[derive(Debug)]
pub struct AudioAlarmBuilder {
    trigger: Trigger,
    attach: Vec<Attachment>,
    common: AlarmCommon,
}

impl AudioAlarmBuilder {
    /// The parts held.
    pub closed spec fn parts(&self) -> AudioAlarmParts {
        AudioAlarmParts {
            trigger: self.trigger,
            attach: self.attach@,
            common: self.common.parts(),
        }
    }

    /// Adds a `attach`.
    pub fn attach(self, v: Attachment) -> (r: AudioAlarmBuilder)
        ensures
            r.parts() == (AudioAlarmParts { attach: self.parts().attach.push(v), ..self.parts() }),
    {
        let mut b = self;
        b.attach.push(v);
        b
    }

    /// Sets `DURATION` and `REPEAT`, which go together.
    pub fn duration_and_repeat(self, duration: Duration, repeat: Repeat) -> (r: AudioAlarmBuilder)
        ensures
            r.parts() == (AudioAlarmParts {
                common: AlarmCommonParts {
                    duration: Some(duration),
                    repeat: Some(repeat),
                    ..self.parts().common
                },
                ..self.parts()
            }),
    {
        let mut b = self;
        b.common.duration = Some(duration);
        b.common.repeat = Some(repeat);
        b
    }

    /// Sets `uid`.
    pub fn uid(self, v: Uid) -> (r: AudioAlarmBuilder)
        ensures
            r.parts() == (AudioAlarmParts {
                common: AlarmCommonParts { uid: Some(v), ..self.parts().common },
                ..self.parts()
            }),
    {
        let mut b = self;
        b.common.uid = Some(v);
        b
    }

    /// Adds `related`.
    pub fn related(self, v: RelatedTo) -> (r: AudioAlarmBuilder)
        ensures
            r.parts() == (AudioAlarmParts {
                common: AlarmCommonParts { related: self.parts().common.related.push(v), ..self.parts().common },
                ..self.parts()
            }),
    {
        let mut b = self;
        b.common.related.push(v);
        b
    }

    /// Sets `acknowledged`.
    pub fn acknowledged(self, v: Acknowledged) -> (r: AudioAlarmBuilder)
        ensures
            r.parts() == (AudioAlarmParts {
                common: AlarmCommonParts { acknowledged: Some(v), ..self.parts().common },
                ..self.parts()
            }),
    {
        let mut b = self;
        b.common.acknowledged = Some(v);
        b
    }

    /// Sets `proximity`.
    pub fn proximity(self, v: Proximity) -> (r: AudioAlarmBuilder)
        ensures
            r.parts() == (AudioAlarmParts {
                common: AlarmCommonParts { proximity: Some(v), ..self.parts().common },
                ..self.parts()
            }),
    {
        let mut b = self;
        b.common.proximity = Some(v);
        b
    }

    /// Adds `locations`.
    pub fn location(self, v: VLocation) -> (r: AudioAlarmBuilder)
        ensures
            r.parts() == (AudioAlarmParts {
                common: AlarmCommonParts { locations: self.parts().common.locations.push(v), ..self.parts().common },
                ..self.parts()
            }),
    {
        let mut b = self;
        b.common.locations.push(v);
        b
    }

    /// Adds `xprop`.
    pub fn xprop(self, v: Xprop) -> (r: AudioAlarmBuilder)
        ensures
            r.parts() == (AudioAlarmParts {
                common: AlarmCommonParts { xprop: self.parts().common.xprop.push(v), ..self.parts().common },
                ..self.parts()
            }),
    {
        let mut b = self;
        b.common.xprop.push(v);
        b
    }

    /// Adds `iana`.
    pub fn iana(self, v: Iana) -> (r: AudioAlarmBuilder)
        ensures
            r.parts() == (AudioAlarmParts {
                common: AlarmCommonParts { iana: self.parts().common.iana.push(v), ..self.parts().common },
                ..self.parts()
            }),
    {
        let mut b = self;
        b.common.iana.push(v);
        b
    }

    /// The alarm: at most one `ATTACH`, and locations only with a
    /// `PROXIMITY`.
    pub fn build(self) -> (r: Result<Alarm, ComponentError>)
        ensures
            r is Ok <==> self.parts().attach.len() <= 1 && proximity_given(self.parts().common),
            self.parts().attach.len() > 1 ==> r == Err::<Alarm, ComponentError>(
                ComponentError::NotAllowed("more than one ATTACH", "ACTION is AUDIO"),
            ),
            self.parts().attach.len() <= 1 && !proximity_given(self.parts().common) ==> r == Err::<
                Alarm,
                ComponentError,
            >(ComponentError::Requires("VLOCATION", "PROXIMITY")),
            r matches Ok(a) ==> a.parts().action.spec_value() == ActionEnum::Audio
                && a.parts().action.spec_params().iana_bytes() == Seq::<Seq<u8>>::empty()
                && a.parts().action.spec_params().xname_bytes() == Seq::<Seq<u8>>::empty() && a.parts()
                == alarm_parts(
                self.parts().common,
                a.parts().action,
                self.parts().trigger,
                None,
                None,
                Seq::empty(),
                self.parts().attach,
            ),
    {
        if self.attach.len() > 1 {
            return Err(ComponentError::NotAllowed("more than one ATTACH", "ACTION is AUDIO"));
        }
        self.common.finish(
            Action::new(ActionEnum::Audio),
            self.trigger,
            None,
            None,
            Vec::new(),
            self.attach,
        )
    }
}

/// The parts an [`DisplayAlarmBuilder`] holds.
pub struct DisplayAlarmParts {
    /// `trigger`.
    pub trigger: Trigger,
    /// `description`.
    pub description: Description,
    /// What every alarm builder holds.
    pub common: AlarmCommonParts,
}

/// Builds an alarm that displays a message.
#[derive(Debug)]
pub struct DisplayAlarmBuilder {
    trigger: Trigger,
    description: Description,
    common: AlarmCommon,
}

impl DisplayAlarmBuilder {
    /// The parts held.
    pub closed spec fn parts(&self) -> DisplayAlarmParts {
        DisplayAlarmParts {
            trigger: self.trigger,
            description: self.description,
            common: self.common.parts(),
        }
    }

    /// Sets `DURATION` and `REPEAT`, which go together.
    pub fn duration_and_repeat(self, duration: Duration, repeat: Repeat) -> (r: DisplayAlarmBuilder)
        ensures
            r.parts() == (DisplayAlarmParts {
                common: AlarmCommonParts {
                    duration: Some(duration),
                    repeat: Some(repeat),
                    ..self.parts().common
                },
                ..self.parts()
            }),
    {
        let mut b = self;
        b.common.duration = Some(duration);
        b.common.repeat = Some(repeat);
        b
    }

    /// Sets `uid`.
    pub fn uid(self, v: Uid) -> (r: DisplayAlarmBuilder)
        ensures
            r.parts() == (DisplayAlarmParts {
                common: AlarmCommonParts { uid: Some(v), ..self.parts().common },
                ..self.parts()
            }),
    {
        let mut b = self;
        b.common.uid = Some(v);
        b
    }

    /// Adds `related`.
    pub fn related(self, v: RelatedTo) -> (r: DisplayAlarmBuilder)
        ensures
            r.parts() == (DisplayAlarmParts {
                common: AlarmCommonParts { related: self.parts().common.related.push(v), ..self.parts().common },
                ..self.parts()
            }),
    {
        let mut b = self;
        b.common.related.push(v);
        b
    }

    /// Sets `acknowledged`.
    pub fn acknowledged(self, v: Acknowledged) -> (r: DisplayAlarmBuilder)
        ensures
            r.parts() == (DisplayAlarmParts {
                common: AlarmCommonParts { acknowledged: Some(v), ..self.parts().common },
                ..self.parts()
            }),
    {
        let mut b = self;
        b.common.acknowledged = Some(v);
        b
    }

    /// Sets `proximity`.
    pub fn proximity(self, v: Proximity) -> (r: DisplayAlarmBuilder)
        ensures
            r.parts() == (DisplayAlarmParts {
                common: AlarmCommonParts { proximity: Some(v), ..self.parts().common },
                ..self.parts()
            }),
    {
        let mut b = self;
        b.common.proximity = Some(v);
        b
    }

    /// Adds `locations`.
    pub fn location(self, v: VLocation) -> (r: DisplayAlarmBuilder)
        ensures
            r.parts() == (DisplayAlarmParts {
                common: AlarmCommonParts { locations: self.parts().common.locations.push(v), ..self.parts().common },
                ..self.parts()
            }),
    {
        let mut b = self;
        b.common.locations.push(v);
        b
    }

    /// Adds `xprop`.
    pub fn xprop(self, v: Xprop) -> (r: DisplayAlarmBuilder)
        ensures
            r.parts() == (DisplayAlarmParts {
                common: AlarmCommonParts { xprop: self.parts().common.xprop.push(v), ..self.parts().common },
                ..self.parts()
            }),
    {
        let mut b = self;
        b.common.xprop.push(v);
        b
    }

    /// Adds `iana`.
    pub fn iana(self, v: Iana) -> (r: DisplayAlarmBuilder)
        ensures
            r.parts() == (DisplayAlarmParts {
                common: AlarmCommonParts { iana: self.parts().common.iana.push(v), ..self.parts().common },
                ..self.parts()
            }),
    {
        let mut b = self;
        b.common.iana.push(v);
        b
    }

    /// The alarm, with locations only with a `PROXIMITY`.
    pub fn build(self) -> (r: Result<Alarm, ComponentError>)
        ensures
            r is Ok <==> proximity_given(self.parts().common),
            !proximity_given(self.parts().common) ==> r == Err::<Alarm, ComponentError>(
                ComponentError::Requires("VLOCATION", "PROXIMITY"),
            ),
            r matches Ok(a) ==> a.parts().action.spec_value() == ActionEnum::Display
                && a.parts().action.spec_params().iana_bytes() == Seq::<Seq<u8>>::empty()
                && a.parts().action.spec_params().xname_bytes() == Seq::<Seq<u8>>::empty() && a.parts()
                == alarm_parts(
                self.parts().common,
                a.parts().action,
                self.parts().trigger,
                Some(self.parts().description),
                None,
                Seq::empty(),
                Seq::empty(),
            ),
    {
        self.common.finish(
            Action::new(ActionEnum::Display),
            self.trigger,
            Some(self.description),
            None,
            Vec::new(),
            Vec::new(),
        )
    }
}

/// The parts an [`EmailAlarmBuilder`] holds.
pub struct EmailAlarmParts {
    /// `trigger`.
    pub trigger: Trigger,
    /// `description`.
    pub description: Description,
    /// `summary`.
    pub summary: Summary,
    /// `attendee`.
    pub attendee: Seq<Attendee>,
    /// `attach`.
    pub attach: Seq<Attachment>,
    /// What every alarm builder holds.
    pub common: AlarmCommonParts,
}

/// Builds an alarm that sends an email.
#[derive(Debug)]
pub struct EmailAlarmBuilder {
    trigger: Trigger,
    description: Description,
    summary: Summary,
    attendee: Vec<Attendee>,
    attach: Vec<Attachment>,
    common: AlarmCommon,
}

impl EmailAlarmBuilder {
    /// The parts held.
    pub closed spec fn parts(&self) -> EmailAlarmParts {
        EmailAlarmParts {
            trigger: self.trigger,
            description: self.description,
            summary: self.summary,
            attendee: self.attendee@,
            attach: self.attach@,
            common: self.common.parts(),
        }
    }

    /// Adds a `attendee`.
    pub fn attendee(self, v: Attendee) -> (r: EmailAlarmBuilder)
        ensures
            r.parts() == (EmailAlarmParts { attendee: self.parts().attendee.push(v), ..self.parts() }),
    {
        let mut b = self;
        b.attendee.push(v);
        b
    }

    /// Adds a `attach`.
    pub fn attach(self, v: Attachment) -> (r: EmailAlarmBuilder)
        ensures
            r.parts() == (EmailAlarmParts { attach: self.parts().attach.push(v), ..self.parts() }),
    {
        let mut b = self;
        b.attach.push(v);
        b
    }

    /// Sets `DURATION` and `REPEAT`, which go together.
    pub fn duration_and_repeat(self, duration: Duration, repeat: Repeat) -> (r: EmailAlarmBuilder)
        ensures
            r.parts() == (EmailAlarmParts {
                common: AlarmCommonParts {
                    duration: Some(duration),
                    repeat: Some(repeat),
                    ..self.parts().common
                },
                ..self.parts()
            }),
    {
        let mut b = self;
        b.common.duration = Some(duration);
        b.common.repeat = Some(repeat);
        b
    }

    /// Sets `uid`.
    pub fn uid(self, v: Uid) -> (r: EmailAlarmBuilder)
        ensures
            r.parts() == (EmailAlarmParts {
                common: AlarmCommonParts { uid: Some(v), ..self.parts().common },
                ..self.parts()
            }),
    {
        let mut b = self;
        b.common.uid = Some(v);
        b
    }

    /// Adds `related`.
    pub fn related(self, v: RelatedTo) -> (r: EmailAlarmBuilder)
        ensures
            r.parts() == (EmailAlarmParts {
                common: AlarmCommonParts { related: self.parts().common.related.push(v), ..self.parts().common },
                ..self.parts()
            }),
    {
        let mut b = self;
        b.common.related.push(v);
        b
    }

    /// Sets `acknowledged`.
    pub fn acknowledged(self, v: Acknowledged) -> (r: EmailAlarmBuilder)
        ensures
            r.parts() == (EmailAlarmParts {
                common: AlarmCommonParts { acknowledged: Some(v), ..self.parts().common },
                ..self.parts()
            }),
    {
        let mut b = self;
        b.common.acknowledged = Some(v);
        b
    }

    /// Sets `proximity`.
    pub fn proximity(self, v: Proximity) -> (r: EmailAlarmBuilder)
        ensures
            r.parts() == (EmailAlarmParts {
                common: AlarmCommonParts { proximity: Some(v), ..self.parts().common },
                ..self.parts()
            }),
    {
        let mut b = self;
        b.common.proximity = Some(v);
        b
    }

    /// Adds `locations`.
    pub fn location(self, v: VLocation) -> (r: EmailAlarmBuilder)
        ensures
            r.parts() == (EmailAlarmParts {
                common: AlarmCommonParts { locations: self.parts().common.locations.push(v), ..self.parts().common },
                ..self.parts()
            }),
    {
        let mut b = self;
        b.common.locations.push(v);
        b
    }

    /// Adds `xprop`.
    pub fn xprop(self, v: Xprop) -> (r: EmailAlarmBuilder)
        ensures
            r.parts() == (EmailAlarmParts {
                common: AlarmCommonParts { xprop: self.parts().common.xprop.push(v), ..self.parts().common },
                ..self.parts()
            }),
    {
        let mut b = self;
        b.common.xprop.push(v);
        b
    }

    /// Adds `iana`.
    pub fn iana(self, v: Iana) -> (r: EmailAlarmBuilder)
        ensures
            r.parts() == (EmailAlarmParts {
                common: AlarmCommonParts { iana: self.parts().common.iana.push(v), ..self.parts().common },
                ..self.parts()
            }),
    {
        let mut b = self;
        b.common.iana.push(v);
        b
    }

    /// The alarm, with locations only with a `PROXIMITY`.
    pub fn build(self) -> (r: Result<Alarm, ComponentError>)
        ensures
            r is Ok <==> proximity_given(self.parts().common),
            !proximity_given(self.parts().common) ==> r == Err::<Alarm, ComponentError>(
                ComponentError::Requires("VLOCATION", "PROXIMITY"),
            ),
            r matches Ok(a) ==> a.parts().action.spec_value() == ActionEnum::Email
                && a.parts().action.spec_params().iana_bytes() == Seq::<Seq<u8>>::empty()
                && a.parts().action.spec_params().xname_bytes() == Seq::<Seq<u8>>::empty() && a.parts()
                == alarm_parts(
                self.parts().common,
                a.parts().action,
                self.parts().trigger,
                Some(self.parts().description),
                Some(self.parts().summary),
                self.parts().attendee,
                self.parts().attach,
            ),
    {
        self.common.finish(
            Action::new(ActionEnum::Email),
            self.trigger,
            Some(self.description),
            Some(self.summary),
            self.attendee,
            self.attach,
        )
    }
}

/// The parts an [`CustomAlarmBuilder`] holds.
pub struct CustomAlarmParts {
    /// `action`.
    pub action: Action,
    /// `trigger`.
    pub trigger: Trigger,
    /// `description`.
    pub description: Option<Description>,
    /// `summary`.
    pub summary: Option<Summary>,
    /// `attendee`.
    pub attendee: Seq<Attendee>,
    /// `attach`.
    pub attach: Seq<Attachment>,
    /// What every alarm builder holds.
    pub common: AlarmCommonParts,
}

/// Builds an alarm with an action of its own.
#[derive(Debug)]
pub struct CustomAlarmBuilder {
    action: Action,
    trigger: Trigger,
    description: Option<Description>,
    summary: Option<Summary>,
    attendee: Vec<Attendee>,
    attach: Vec<Attachment>,
    common: AlarmCommon,
}

impl CustomAlarmBuilder {
    /// The parts held.
    pub closed spec fn parts(&self) -> CustomAlarmParts {
        CustomAlarmParts {
            action: self.action,
            trigger: self.trigger,
            description: self.description,
            summary: self.summary,
            attendee: self.attendee@,
            attach: self.attach@,
            common: self.common.parts(),
        }
    }

    /// Sets `description`.
    pub fn description(self, v: Description) -> (r: CustomAlarmBuilder)
        ensures
            r.parts() == (CustomAlarmParts { description: Some(v), ..self.parts() }),
    {
        let mut b = self;
        b.description = Some(v);
        b
    }

    /// Sets `summary`.
    pub fn summary(self, v: Summary) -> (r: CustomAlarmBuilder)
        ensures
            r.parts() == (CustomAlarmParts { summary: Some(v), ..self.parts() }),
    {
        let mut b = self;
        b.summary = Some(v);
        b
    }

    /// Adds a `attendee`.
    pub fn attendee(self, v: Attendee) -> (r: CustomAlarmBuilder)
        ensures
            r.parts() == (CustomAlarmParts { attendee: self.parts().attendee.push(v), ..self.parts() }),
    {
        let mut b = self;
        b.attendee.push(v);
        b
    }

    /// Adds a `attach`.
    pub fn attach(self, v: Attachment) -> (r: CustomAlarmBuilder)
        ensures
            r.parts() == (CustomAlarmParts { attach: self.parts().attach.push(v), ..self.parts() }),
    {
        let mut b = self;
        b.attach.push(v);
        b
    }

    /// Sets `DURATION` and `REPEAT`, which go together.
    pub fn duration_and_repeat(self, duration: Duration, repeat: Repeat) -> (r: CustomAlarmBuilder)
        ensures
            r.parts() == (CustomAlarmParts {
                common: AlarmCommonParts {
                    duration: Some(duration),
                    repeat: Some(repeat),
                    ..self.parts().common
                },
                ..self.parts()
            }),
    {
        let mut b = self;
        b.common.duration = Some(duration);
        b.common.repeat = Some(repeat);
        b
    }

    /// Sets `uid`.
    pub fn uid(self, v: Uid) -> (r: CustomAlarmBuilder)
        ensures
            r.parts() == (CustomAlarmParts {
                common: AlarmCommonParts { uid: Some(v), ..self.parts().common },
                ..self.parts()
            }),
    {
        let mut b = self;
        b.common.uid = Some(v);
        b
    }

    /// Adds `related`.
    pub fn related(self, v: RelatedTo) -> (r: CustomAlarmBuilder)
        ensures
            r.parts() == (CustomAlarmParts {
                common: AlarmCommonParts { related: self.parts().common.related.push(v), ..self.parts().common },
                ..self.parts()
            }),
    {
        let mut b = self;
        b.common.related.push(v);
        b
    }

    /// Sets `acknowledged`.
    pub fn acknowledged(self, v: Acknowledged) -> (r: CustomAlarmBuilder)
        ensures
            r.parts() == (CustomAlarmParts {
                common: AlarmCommonParts { acknowledged: Some(v), ..self.parts().common },
                ..self.parts()
            }),
    {
        let mut b = self;
        b.common.acknowledged = Some(v);
        b
    }

    /// Sets `proximity`.
    pub fn proximity(self, v: Proximity) -> (r: CustomAlarmBuilder)
        ensures
            r.parts() == (CustomAlarmParts {
                common: AlarmCommonParts { proximity: Some(v), ..self.parts().common },
                ..self.parts()
            }),
    {
        let mut b = self;
        b.common.proximity = Some(v);
        b
    }

    /// Adds `locations`.
    pub fn location(self, v: VLocation) -> (r: CustomAlarmBuilder)
        ensures
            r.parts() == (CustomAlarmParts {
                common: AlarmCommonParts { locations: self.parts().common.locations.push(v), ..self.parts().common },
                ..self.parts()
            }),
    {
        let mut b = self;
        b.common.locations.push(v);
        b
    }

    /// Adds `xprop`.
    pub fn xprop(self, v: Xprop) -> (r: CustomAlarmBuilder)
        ensures
            r.parts() == (CustomAlarmParts {
                common: AlarmCommonParts { xprop: self.parts().common.xprop.push(v), ..self.parts().common },
                ..self.parts()
            }),
    {
        let mut b = self;
        b.common.xprop.push(v);
        b
    }

    /// Adds `iana`.
    pub fn iana(self, v: Iana) -> (r: CustomAlarmBuilder)
        ensures
            r.parts() == (CustomAlarmParts {
                common: AlarmCommonParts { iana: self.parts().common.iana.push(v), ..self.parts().common },
                ..self.parts()
            }),
    {
        let mut b = self;
        b.common.iana.push(v);
        b
    }

    /// The alarm, with locations only with a `PROXIMITY`.
    pub fn build(self) -> (r: Result<Alarm, ComponentError>)
        ensures
            r is Ok <==> proximity_given(self.parts().common),
            !proximity_given(self.parts().common) ==> r == Err::<Alarm, ComponentError>(
                ComponentError::Requires("VLOCATION", "PROXIMITY"),
            ),
            r matches Ok(a) ==> a.parts() == alarm_parts(
                self.parts().common,
                self.parts().action,
                self.parts().trigger,
                self.parts().description,
                self.parts().summary,
                self.parts().attendee,
                self.parts().attach,
            ),
    {
        self.common.finish(
            self.action,
            self.trigger,
            self.description,
            self.summary,
            self.attendee,
            self.attach,
        )
    }
}

/// Starts building an alarm of one of the kinds RFC 5545 defines, each with
/// the properties that kind requires.
#[derive(Debug)]
pub struct AlarmBuilder;

impl AlarmBuilder {
    /// An alarm that plays a sound at `trigger`.
    pub fn audio(trigger: Trigger) -> (r: AudioAlarmBuilder)
        ensures
            r.parts().trigger == trigger,
            r.parts().attach.len() == 0,
            r.parts().common == AlarmCommon::new_parts(),
    {
        AudioAlarmBuilder { trigger, attach: Vec::new(), common: AlarmCommon::new() }
    }

    /// An alarm that displays `description` at `trigger`.
    pub fn display(trigger: Trigger, description: Description) -> (r: DisplayAlarmBuilder)
        ensures
            r.parts().trigger == trigger,
            r.parts().description == description,
            r.parts().common == AlarmCommon::new_parts(),
    {
        DisplayAlarmBuilder { trigger, description, common: AlarmCommon::new() }
    }

    /// An alarm that emails `description` under `summary` to `first_attendee`
    /// (and any attendees added later) at `trigger`.
    pub fn email(
        trigger: Trigger,
        description: Description,
        summary: Summary,
        first_attendee: Attendee,
    ) -> (r: EmailAlarmBuilder)
        ensures
            r.parts().trigger == trigger,
            r.parts().description == description,
            r.parts().summary == summary,
            r.parts().attendee == seq![first_attendee],
            r.parts().attach.len() == 0,
            r.parts().common == AlarmCommon::new_parts(),
    {
        let mut attendee = Vec::new();
        attendee.push(first_attendee);
        EmailAlarmBuilder {
            trigger,
            description,
            summary,
            attendee,
            attach: Vec::new(),
            common: AlarmCommon::new(),
        }
    }

    /// An alarm that takes `action` at `trigger`.
    pub fn custom(action: Action, trigger: Trigger) -> (r: CustomAlarmBuilder)
        ensures
            r.parts().action == action,
            r.parts().trigger == trigger,
            r.parts().description is None,
            r.parts().summary is None,
            r.parts().attendee.len() == 0,
            r.parts().attach.len() == 0,
            r.parts().common == AlarmCommon::new_parts(),
    {
        CustomAlarmBuilder {
            action,
            trigger,
            description: None,
            summary: None,
            attendee: Vec::new(),
            attach: Vec::new(),
            common: AlarmCommon::new(),
        }
    }
}


/// The properties of a [`AlarmParseBuilder`], as values.
pub ghost struct AlarmParseParts {
    /// `action`.
    pub action: Option<Action>,
    /// `trigger`.
    pub trigger: Option<Trigger>,
    /// `duration`.
    pub duration: Option<Duration>,
    /// `repeat`.
    pub repeat: Option<Repeat>,
    /// `description`.
    pub description: Option<Description>,
    /// `summary`.
    pub summary: Option<Summary>,
    /// `attendee`.
    pub attendee: Seq<Attendee>,
    /// `attach`.
    pub attach: Seq<Attachment>,
    /// `uid`.
    pub uid: Option<Uid>,
    /// `related`.
    pub related: Seq<RelatedTo>,
    /// `acknowledged`.
    pub acknowledged: Option<Acknowledged>,
    /// `proximity`.
    pub proximity: Option<Proximity>,
    /// `xprop`.
    pub xprop: Seq<Xprop>,
    /// `iana`.
    pub iana: Seq<Iana>,
    /// `locations`.
    pub locations: Seq<VLocation>,
}

/// Collects the content lines of a component being read, in the order
/// they come, and builds it at its end.
#[derive(Debug)]
pub struct AlarmParseBuilder {
    action: Option<Action>,
    trigger: Option<Trigger>,
    duration: Option<Duration>,
    repeat: Option<Repeat>,
    description: Option<Description>,
    summary: Option<Summary>,
    attendee: Vec<Attendee>,
    attach: Vec<Attachment>,
    uid: Option<Uid>,
    related: Vec<RelatedTo>,
    acknowledged: Option<Acknowledged>,
    proximity: Option<Proximity>,
    xprop: Vec<Xprop>,
    iana: Vec<Iana>,
    locations: Vec<VLocation>,
}

/// What reading the property `p` does to the properties `q` collected so
/// far: a property held once may not come twice, one held many times is
/// added, and one the component doesn't hold is refused.
#[verifier::opaque]
pub open spec fn alarm_ingest(q: AlarmParseParts, p: Property) -> Result<AlarmParseParts, PropertyError> {
    match p {
        Property::Action(x) => if q.action is Some {
            Err(PropertyError::DuplicateProperty("ACTION"))
        } else {
            Ok(AlarmParseParts { action: Some(x), ..q })
        },
        Property::Trigger(x) => if q.trigger is Some {
            Err(PropertyError::DuplicateProperty("TRIGGER"))
        } else {
            Ok(AlarmParseParts { trigger: Some(x), ..q })
        },
        Property::Duration(x) => if q.duration is Some {
            Err(PropertyError::DuplicateProperty("DURATION"))
        } else {
            Ok(AlarmParseParts { duration: Some(x), ..q })
        },
        Property::Repeat(x) => if q.repeat is Some {
            Err(PropertyError::DuplicateProperty("REPEAT"))
        } else {
            Ok(AlarmParseParts { repeat: Some(x), ..q })
        },
        Property::Description(x) => if q.description is Some {
            Err(PropertyError::DuplicateProperty("DESCRIPTION"))
        } else {
            Ok(AlarmParseParts { description: Some(x), ..q })
        },
        Property::Summary(x) => if q.summary is Some {
            Err(PropertyError::DuplicateProperty("SUMMARY"))
        } else {
            Ok(AlarmParseParts { summary: Some(x), ..q })
        },
        Property::Attendee(x) => Ok(AlarmParseParts { attendee: q.attendee.push(x), ..q }),
        Property::Attachment(x) => Ok(AlarmParseParts { attach: q.attach.push(x), ..q }),
        Property::Uid(x) => if q.uid is Some {
            Err(PropertyError::DuplicateProperty("UID"))
        } else {
            Ok(AlarmParseParts { uid: Some(x), ..q })
        },
        Property::RelatedTo(x) => Ok(AlarmParseParts { related: q.related.push(x), ..q }),
        Property::Acknowledged(x) => if q.acknowledged is Some {
            Err(PropertyError::DuplicateProperty("ACKNOWLEDGED"))
        } else {
            Ok(AlarmParseParts { acknowledged: Some(x), ..q })
        },
        Property::Proximity(x) => if q.proximity is Some {
            Err(PropertyError::DuplicateProperty("PROXIMITY"))
        } else {
            Ok(AlarmParseParts { proximity: Some(x), ..q })
        },
        Property::Xprop(x) => Ok(AlarmParseParts { xprop: q.xprop.push(x), ..q }),
        Property::Iana(x) => Ok(AlarmParseParts { iana: q.iana.push(x), ..q }),
        _ => Err(PropertyError::UnexpectedProperty),
    }
}

/// The properties `props` read one after the other into an empty
/// [`AlarmParseBuilder`], or the first refusal.
pub open spec fn alarm_fold(props: Seq<Property>) -> Result<AlarmParseParts, PropertyError>
    decreases props.len(),
{
    if props.len() == 0 {
        Ok(AlarmParseBuilder::empty_parts())
    } else {
        match alarm_fold(props.drop_last()) {
            Ok(q) => alarm_ingest(q, props.last()),
            Err(e) => Err(e),
        }
    }
}

/// Reading a property doesn't look at, nor touch, the nested components.
pub proof fn lemma_alarm_ingest_nested(q: AlarmParseParts, p: Property, locations: Seq<VLocation>)
    ensures
        alarm_ingest(AlarmParseParts { locations: locations, ..q }, p) == match alarm_ingest(q, p) {
            Ok(q2) => Ok(AlarmParseParts { locations: locations, ..q2 }),
            Err(e) => Err(e),
        },
{
    reveal(alarm_ingest);
}

/// The properties `q` holds, once those it requires are there.
pub open spec fn alarm_parts_of(q: AlarmParseParts) -> AlarmParts {
    AlarmParts {
        action: q.action->0,
        trigger: q.trigger->0,
        duration: q.duration,
        repeat: q.repeat,
        description: q.description,
        summary: q.summary,
        attendee: q.attendee,
        attach: q.attach,
        uid: q.uid,
        related: q.related,
        acknowledged: q.acknowledged,
        proximity: q.proximity,
        xprop: q.xprop,
        iana: q.iana,
        locations: q.locations,
    }
}

/// The first property `q` requires and lacks, if any.
pub open spec fn alarm_missing(q: AlarmParseParts) -> Option<&'static str> {
    if q.action is None {
        Some("ACTION")
    } else if q.trigger is None {
        Some("TRIGGER")
    } else {
        None
    }
}

impl AlarmParseBuilder {
    /// The properties collected.
    pub closed spec fn parts(&self) -> AlarmParseParts {
        AlarmParseParts {
            action: self.action,
            trigger: self.trigger,
            duration: self.duration,
            repeat: self.repeat,
            description: self.description,
            summary: self.summary,
            attendee: self.attendee@,
            attach: self.attach@,
            uid: self.uid,
            related: self.related@,
            acknowledged: self.acknowledged,
            proximity: self.proximity,
            xprop: self.xprop@,
            iana: self.iana@,
            locations: self.locations@,
        }
    }

    /// Nothing collected yet.
    pub open spec fn empty_parts() -> AlarmParseParts {
        AlarmParseParts {
            action: None,
            trigger: None,
            duration: None,
            repeat: None,
            description: None,
            summary: None,
            attendee: Seq::empty(),
            attach: Seq::empty(),
            uid: None,
            related: Seq::empty(),
            acknowledged: None,
            proximity: None,
            xprop: Seq::empty(),
            iana: Seq::empty(),
            locations: Seq::empty(),
        }
    }

    /// A component with nothing collected yet.
    pub fn new() -> (r: AlarmParseBuilder)
        ensures
            r.parts() == AlarmParseBuilder::empty_parts(),
    {
        AlarmParseBuilder {
            action: None,
            trigger: None,
            duration: None,
            repeat: None,
            description: None,
            summary: None,
            attendee: Vec::new(),
            attach: Vec::new(),
            uid: None,
            related: Vec::new(),
            acknowledged: None,
            proximity: None,
            xprop: Vec::new(),
            iana: Vec::new(),
            locations: Vec::new(),
        }
    }

    /// Reads one property into the component.
    pub fn ingest(&mut self, p: Property) -> (r: Result<(), PropertyError>)
        ensures
            match alarm_ingest(old(self).parts(), p) {
                Ok(q) => r is Ok && final(self).parts() == q,
                Err(e) => r == Err::<(), PropertyError>(e) && final(self).parts() == old(self).parts(),
            },
            final(self).parts().locations == old(self).parts().locations,
    {
        reveal(alarm_ingest);
        match p {
            Property::Action(x) => {
                if self.action.is_some() {
                    return Err(PropertyError::DuplicateProperty("ACTION"));
                }
                self.action = Some(x);
                Ok(())
            },
            Property::Trigger(x) => {
                if self.trigger.is_some() {
                    return Err(PropertyError::DuplicateProperty("TRIGGER"));
                }
                self.trigger = Some(x);
                Ok(())
            },
            Property::Duration(x) => {
                if self.duration.is_some() {
                    return Err(PropertyError::DuplicateProperty("DURATION"));
                }
                self.duration = Some(x);
                Ok(())
            },
            Property::Repeat(x) => {
                if self.repeat.is_some() {
                    return Err(PropertyError::DuplicateProperty("REPEAT"));
                }
                self.repeat = Some(x);
                Ok(())
            },
            Property::Description(x) => {
                if self.description.is_some() {
                    return Err(PropertyError::DuplicateProperty("DESCRIPTION"));
                }
                self.description = Some(x);
                Ok(())
            },
            Property::Summary(x) => {
                if self.summary.is_some() {
                    return Err(PropertyError::DuplicateProperty("SUMMARY"));
                }
                self.summary = Some(x);
                Ok(())
            },
            Property::Attendee(x) => {
                self.attendee.push(x);
                Ok(())
            },
            Property::Attachment(x) => {
                self.attach.push(x);
                Ok(())
            },
            Property::Uid(x) => {
                if self.uid.is_some() {
                    return Err(PropertyError::DuplicateProperty("UID"));
                }
                self.uid = Some(x);
                Ok(())
            },
            Property::RelatedTo(x) => {
                self.related.push(x);
                Ok(())
            },
            Property::Acknowledged(x) => {
                if self.acknowledged.is_some() {
                    return Err(PropertyError::DuplicateProperty("ACKNOWLEDGED"));
                }
                self.acknowledged = Some(x);
                Ok(())
            },
            Property::Proximity(x) => {
                if self.proximity.is_some() {
                    return Err(PropertyError::DuplicateProperty("PROXIMITY"));
                }
                self.proximity = Some(x);
                Ok(())
            },
            Property::Xprop(x) => {
                self.xprop.push(x);
                Ok(())
            },
            Property::Iana(x) => {
                self.iana.push(x);
                Ok(())
            },
            _ => Err(PropertyError::UnexpectedProperty),
        }
    }

    /// Adds a nested component read in full.
    pub fn push_locations(&mut self, v: VLocation)
        ensures
            final(self).parts() == (AlarmParseParts { locations: old(self).parts().locations.push(v), ..old(self).parts() }),
    {
        self.locations.push(v);
    }

    /// Builds the component: the properties it requires must be there,
    /// and then it is checked as its builder checks it.
    pub fn finish(self) -> (r: Result<Alarm, ComponentError>)
        ensures
            alarm_missing(self.parts()) matches Some(n) ==> r == Err::<Alarm, ComponentError>(ComponentError::MissingField(n)),
            alarm_missing(self.parts()) is None ==> (r is Ok <==> alarm_check(alarm_parts_of(self.parts())) is Ok),
            alarm_missing(self.parts()) is None ==> (r matches Err(e) ==> alarm_check(alarm_parts_of(self.parts())) == Err::<(), ComponentError>(e)),
            r matches Ok(c) ==> c.parts() == alarm_parts_of(self.parts()),
    {
        let AlarmParseBuilder { action, trigger, duration, repeat, description, summary, attendee, attach, uid, related, acknowledged, proximity, xprop, iana, locations } = self;
        let action = match action {
            Some(x) => x,
            None => {
                return Err(ComponentError::MissingField("ACTION"));
            },
        };
        let trigger = match trigger {
            Some(x) => x,
            None => {
                return Err(ComponentError::MissingField("TRIGGER"));
            },
        };
        if duration.is_some() && repeat.is_none() {
            return Err(ComponentError::Requires("DURATION", "REPEAT"));
        }
        if repeat.is_some() && duration.is_none() {
            return Err(ComponentError::Requires("REPEAT", "DURATION"));
        }
        match action.value() {
            ActionEnum::Audio => {
                if attach.len() > 1 {
                    return Err(ComponentError::NotAllowed("more than one ATTACH", "ACTION is AUDIO"));
                }
            },
            ActionEnum::Display => {
                if description.is_none() {
                    return Err(ComponentError::MissingField("DESCRIPTION"));
                }
            },
            ActionEnum::Email => {
                if description.is_none() {
                    return Err(ComponentError::MissingField("DESCRIPTION"));
                }
                if summary.is_none() {
                    return Err(ComponentError::MissingField("SUMMARY"));
                }
                if attendee.len() == 0 {
                    return Err(ComponentError::RequiresAtLeastOne("VALARM", "ATTENDEE"));
                }
            },
            _ => {},
        }
        if locations.len() > 0 && proximity.is_none() {
            return Err(ComponentError::Requires("VLOCATION", "PROXIMITY"));
        }
        let b = Alarm {
            action,
            trigger,
            duration,
            repeat,
            description,
            summary,
            attendee,
            attach,
            uid,
            related,
            acknowledged,
            proximity,
            xprop,
            iana,
            locations,
        };
        Ok(b)
    }
}

} // verus!
