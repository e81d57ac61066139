//! The restriction tables RFC 5546 places on each component type under
//! each method, and the check of a calendar's components against them.

use vstd::prelude::*;
use crate::calendar::Component;
use crate::components::event::EventParts;
use crate::components::free_busy::FreeBusyParts;
use crate::components::journal::JournalParts;
use crate::components::todo::TodoParts;
use crate::itip::{ItipError, Method};
use crate::properties::calendar::Method as MethodProperty;
use crate::properties::component::descriptive::StatusValue;
use crate::properties::component::datetime::same_zone;

verus! {

/// The component types whose messages iTIP restricts.
#[derive(Debug, Clone, Copy, PartialEq, Eq, Structural)]
pub enum Kind {
    /// `VEVENT`.
    Event,
    /// `VTODO`.
    Todo,
    /// `VJOURNAL`.
    Journal,
    /// `VFREEBUSY`.
    FreeBusy,
}

impl Kind {
    /// The component's name.
    pub open spec fn token(self) -> &'static str {
        match self {
            Kind::Event => "VEVENT",
            Kind::Todo => "VTODO",
            Kind::Journal => "VJOURNAL",
            Kind::FreeBusy => "VFREEBUSY",
        }
    }

    /// The component's name.
    pub fn as_str(self) -> (r: &'static str)
        ensures
            r == self.token(),
    {
        match self {
            Kind::Event => "VEVENT",
            Kind::Todo => "VTODO",
            Kind::Journal => "VJOURNAL",
            Kind::FreeBusy => "VFREEBUSY",
        }
    }
}

/// A property (or, for `VALARM`, a sub-component) a rule looks at.
#[derive(Debug, Clone, Copy, PartialEq, Eq, Structural)]
pub enum Prop {
    /// `ATTACH`.
    Attach,
    /// `ATTENDEE`.
    Attendee,
    /// `CATEGORIES`.
    Categories,
    /// `CLASS`.
    Class,
    /// `COMMENT`.
    Comment,
    /// `COMPLETED`.
    Completed,
    /// `CONTACT`.
    Contact,
    /// `CREATED`.
    Created,
    /// `DESCRIPTION`.
    Description,
    /// `DTEND`.
    Dtend,
    /// `DTSTAMP`.
    Dtstamp,
    /// `DTSTART`.
    Dtstart,
    /// `DUE`.
    Due,
    /// `DURATION`.
    Duration,
    /// `EXDATE`.
    Exdate,
    /// `FREEBUSY`.
    Freebusy,
    /// `GEO`.
    Geo,
    /// `LAST-MODIFIED`.
    LastModified,
    /// `LOCATION`.
    Location,
    /// `ORGANIZER`.
    Organizer,
    /// `PERCENT-COMPLETE`.
    PercentComplete,
    /// `PRIORITY`.
    Priority,
    /// `RDATE`.
    Rdate,
    /// `RECURRENCE-ID`.
    RecurrenceId,
    /// `RELATED-TO`.
    RelatedTo,
    /// `REQUEST-STATUS`.
    RequestStatus,
    /// `RESOURCES`.
    Resources,
    /// `RRULE`.
    Rrule,
    /// `SEQUENCE`.
    Sequence,
    /// `STATUS`.
    Status,
    /// `SUMMARY`.
    Summary,
    /// `TRANSP`.
    Transp,
    /// `UID`.
    Uid,
    /// `URL`.
    Url,
    /// `VALARM`.
    Valarm,
}

impl Prop {
    /// The property's name.
    pub open spec fn token(self) -> &'static str {
        match self {
            Prop::Attach => "ATTACH",
            Prop::Attendee => "ATTENDEE",
            Prop::Categories => "CATEGORIES",
            Prop::Class => "CLASS",
            Prop::Comment => "COMMENT",
            Prop::Completed => "COMPLETED",
            Prop::Contact => "CONTACT",
            Prop::Created => "CREATED",
            Prop::Description => "DESCRIPTION",
            Prop::Dtend => "DTEND",
            Prop::Dtstamp => "DTSTAMP",
            Prop::Dtstart => "DTSTART",
            Prop::Due => "DUE",
            Prop::Duration => "DURATION",
            Prop::Exdate => "EXDATE",
            Prop::Freebusy => "FREEBUSY",
            Prop::Geo => "GEO",
            Prop::LastModified => "LAST-MODIFIED",
            Prop::Location => "LOCATION",
            Prop::Organizer => "ORGANIZER",
            Prop::PercentComplete => "PERCENT-COMPLETE",
            Prop::Priority => "PRIORITY",
            Prop::Rdate => "RDATE",
            Prop::RecurrenceId => "RECURRENCE-ID",
            Prop::RelatedTo => "RELATED-TO",
            Prop::RequestStatus => "REQUEST-STATUS",
            Prop::Resources => "RESOURCES",
            Prop::Rrule => "RRULE",
            Prop::Sequence => "SEQUENCE",
            Prop::Status => "STATUS",
            Prop::Summary => "SUMMARY",
            Prop::Transp => "TRANSP",
            Prop::Uid => "UID",
            Prop::Url => "URL",
            Prop::Valarm => "VALARM",
        }
    }

    /// The property's name.
    pub fn as_str(self) -> (r: &'static str)
        ensures
            r == self.token(),
    {
        match self {
            Prop::Attach => "ATTACH",
            Prop::Attendee => "ATTENDEE",
            Prop::Categories => "CATEGORIES",
            Prop::Class => "CLASS",
            Prop::Comment => "COMMENT",
            Prop::Completed => "COMPLETED",
            Prop::Contact => "CONTACT",
            Prop::Created => "CREATED",
            Prop::Description => "DESCRIPTION",
            Prop::Dtend => "DTEND",
            Prop::Dtstamp => "DTSTAMP",
            Prop::Dtstart => "DTSTART",
            Prop::Due => "DUE",
            Prop::Duration => "DURATION",
            Prop::Exdate => "EXDATE",
            Prop::Freebusy => "FREEBUSY",
            Prop::Geo => "GEO",
            Prop::LastModified => "LAST-MODIFIED",
            Prop::Location => "LOCATION",
            Prop::Organizer => "ORGANIZER",
            Prop::PercentComplete => "PERCENT-COMPLETE",
            Prop::Priority => "PRIORITY",
            Prop::Rdate => "RDATE",
            Prop::RecurrenceId => "RECURRENCE-ID",
            Prop::RelatedTo => "RELATED-TO",
            Prop::RequestStatus => "REQUEST-STATUS",
            Prop::Resources => "RESOURCES",
            Prop::Rrule => "RRULE",
            Prop::Sequence => "SEQUENCE",
            Prop::Status => "STATUS",
            Prop::Summary => "SUMMARY",
            Prop::Transp => "TRANSP",
            Prop::Uid => "UID",
            Prop::Url => "URL",
            Prop::Valarm => "VALARM",
        }
    }
}

/// A set of `STATUS` values a method allows.
#[derive(Debug, Clone, Copy, PartialEq, Eq, Structural)]
pub enum StatusSet {
    /// `TENTATIVE/CONFIRMED/CANCELLED`.
    EventAll,
    /// `TENTATIVE/CONFIRMED`.
    EventActive,
    /// `CONFIRMED/TENTATIVE/CANCELLED`.
    EventCounter,
    /// `COMPLETED/NEEDS-ACTION/IN-PROCESS/CANCELLED`.
    TodoAll,
    /// `COMPLETED/NEEDS-ACTION/IN-PROCESS`.
    TodoActive,
    /// `DRAFT/FINAL/CANCELLED`.
    JournalAll,
    /// `CANCELLED`.
    CancelledOnly,
}

impl StatusSet {
    /// How the set is described in an error.
    pub open spec fn token(self) -> &'static str {
        match self {
            StatusSet::EventAll => "TENTATIVE/CONFIRMED/CANCELLED",
            StatusSet::EventActive => "TENTATIVE/CONFIRMED",
            StatusSet::EventCounter => "CONFIRMED/TENTATIVE/CANCELLED",
            StatusSet::TodoAll => "COMPLETED/NEEDS-ACTION/IN-PROCESS/CANCELLED",
            StatusSet::TodoActive => "COMPLETED/NEEDS-ACTION/IN-PROCESS",
            StatusSet::JournalAll => "DRAFT/FINAL/CANCELLED",
            StatusSet::CancelledOnly => "CANCELLED",
        }
    }

    /// How the set is described in an error.
    pub fn as_str(self) -> (r: &'static str)
        ensures
            r == self.token(),
    {
        match self {
            StatusSet::EventAll => "TENTATIVE/CONFIRMED/CANCELLED",
            StatusSet::EventActive => "TENTATIVE/CONFIRMED",
            StatusSet::EventCounter => "CONFIRMED/TENTATIVE/CANCELLED",
            StatusSet::TodoAll => "COMPLETED/NEEDS-ACTION/IN-PROCESS/CANCELLED",
            StatusSet::TodoActive => "COMPLETED/NEEDS-ACTION/IN-PROCESS",
            StatusSet::JournalAll => "DRAFT/FINAL/CANCELLED",
            StatusSet::CancelledOnly => "CANCELLED",
        }
    }

    /// Whether the set holds `v`.
    pub open spec fn admits(self, v: StatusValue) -> bool {
        match self {
            StatusSet::EventAll => v is Tentative || v is Confirmed || v is Cancelled,
            StatusSet::EventActive => v is Tentative || v is Confirmed,
            StatusSet::EventCounter => v is Confirmed || v is Tentative || v is Cancelled,
            StatusSet::TodoAll => v is Completed || v is NeedsAction || v is InProcess || v is Cancelled,
            StatusSet::TodoActive => v is Completed || v is NeedsAction || v is InProcess,
            StatusSet::JournalAll => v is Draft || v is Final || v is Cancelled,
            StatusSet::CancelledOnly => v is Cancelled,
        }
    }

    /// Whether the set holds `v`.
    pub fn contains(self, v: &StatusValue) -> (r: bool)
        ensures
            r == self.admits(*v),
    {
        match self {
            StatusSet::EventAll => matches!(v, StatusValue::Tentative) || matches!(v, StatusValue::Confirmed) || matches!(v, StatusValue::Cancelled),
            StatusSet::EventActive => matches!(v, StatusValue::Tentative) || matches!(v, StatusValue::Confirmed),
            StatusSet::EventCounter => matches!(v, StatusValue::Confirmed) || matches!(v, StatusValue::Tentative) || matches!(v, StatusValue::Cancelled),
            StatusSet::TodoAll => matches!(v, StatusValue::Completed) || matches!(v, StatusValue::NeedsAction) || matches!(v, StatusValue::InProcess) || matches!(v, StatusValue::Cancelled),
            StatusSet::TodoActive => matches!(v, StatusValue::Completed) || matches!(v, StatusValue::NeedsAction) || matches!(v, StatusValue::InProcess),
            StatusSet::JournalAll => matches!(v, StatusValue::Draft) || matches!(v, StatusValue::Final) || matches!(v, StatusValue::Cancelled),
            StatusSet::CancelledOnly => matches!(v, StatusValue::Cancelled),
        }
    }
}

/// One restriction on a component.
#[derive(Debug, Clone, Copy, PartialEq, Eq, Structural)]
pub enum Rule {
    /// The property must be present.
    Present(Prop),
    /// The property must be absent.
    Absent(Prop),
    /// The property must occur exactly once.
    ExactlyOne(Prop),
    /// `SEQUENCE` must be present and greater than 0.
    PositiveSequence,
    /// `STATUS`, when present, must be in the set.
    StatusIn(StatusSet),
}

/// Whether `m` has any meaning for components of kind `k`.
pub open spec fn supported(k: Kind, m: Method) -> bool {
    match k {
        Kind::Event => true,
        Kind::Todo => true,
        Kind::Journal => m is Publish || m is Add || m is Cancel,
        Kind::FreeBusy => m is Publish || m is Request || m is Reply,
    }
}

/// Whether `m` allows exactly one component of kind `k`.
pub open spec fn single(k: Kind, m: Method) -> bool {
    match k {
        Kind::Event => m is Add || m is Refresh || m is Counter,
        Kind::Todo => m is Add || m is Refresh || m is Counter || m is DeclineCounter,
        Kind::Journal => m is Add,
        Kind::FreeBusy => m is Request || m is Reply,
    }
}

/// Whether `m` requires every component of kind `k` to share one `UID`.
pub open spec fn same_uid_required(k: Kind, m: Method) -> bool {
    match k {
        Kind::Event => m is Request || m is Reply || m is Cancel || m is DeclineCounter,
        Kind::Todo => m is Request || m is Reply,
        Kind::Journal => m is Cancel,
        Kind::FreeBusy => false,
    }
}

/// The rules each component of kind `k` must meet under `m`, in the order
/// they are checked.
pub open spec fn rules(k: Kind, m: Method) -> Seq<Rule> {
    match k {
        Kind::Event => match m {
            Method::Publish => seq![Rule::Present(Prop::Dtstart), Rule::Present(Prop::Organizer), Rule::Present(Prop::Summary), Rule::Absent(Prop::Attendee), Rule::Absent(Prop::RequestStatus), Rule::StatusIn(StatusSet::EventAll)],
            Method::Request => seq![Rule::Present(Prop::Attendee), Rule::Present(Prop::Dtstart), Rule::Present(Prop::Organizer), Rule::Present(Prop::Summary), Rule::Absent(Prop::RequestStatus), Rule::StatusIn(StatusSet::EventActive)],
            Method::Reply => seq![Rule::ExactlyOne(Prop::Attendee), Rule::Present(Prop::Organizer), Rule::Absent(Prop::Valarm)],
            Method::Add => seq![Rule::Present(Prop::Dtstart), Rule::Present(Prop::Organizer), Rule::PositiveSequence, Rule::Present(Prop::Summary), Rule::Absent(Prop::Exdate), Rule::Absent(Prop::RecurrenceId), Rule::Absent(Prop::RequestStatus), Rule::Absent(Prop::Rdate), Rule::Absent(Prop::Rrule), Rule::StatusIn(StatusSet::EventActive)],
            Method::Cancel => seq![Rule::Present(Prop::Organizer), Rule::Present(Prop::Sequence), Rule::Absent(Prop::RequestStatus), Rule::Absent(Prop::Valarm)],
            Method::Refresh => seq![Rule::ExactlyOne(Prop::Attendee), Rule::Present(Prop::Organizer), Rule::Absent(Prop::Attach), Rule::Absent(Prop::Categories), Rule::Absent(Prop::Class), Rule::Absent(Prop::Contact), Rule::Absent(Prop::Created), Rule::Absent(Prop::Description), Rule::Absent(Prop::Dtend), Rule::Absent(Prop::Dtstart), Rule::Absent(Prop::Duration), Rule::Absent(Prop::Exdate), Rule::Absent(Prop::Geo), Rule::Absent(Prop::LastModified), Rule::Absent(Prop::Location), Rule::Absent(Prop::Priority), Rule::Absent(Prop::Rdate), Rule::Absent(Prop::RelatedTo), Rule::Absent(Prop::RequestStatus), Rule::Absent(Prop::Resources), Rule::Absent(Prop::Rrule), Rule::Absent(Prop::Sequence), Rule::Absent(Prop::Status), Rule::Absent(Prop::Summary), Rule::Absent(Prop::Transp), Rule::Absent(Prop::Url), Rule::Absent(Prop::Valarm)],
            Method::Counter => seq![Rule::Present(Prop::Dtstart), Rule::Present(Prop::Organizer), Rule::Present(Prop::Sequence), Rule::Present(Prop::Summary), Rule::StatusIn(StatusSet::EventCounter)],
            Method::DeclineCounter => seq![Rule::Present(Prop::Attendee), Rule::Present(Prop::Organizer), Rule::Present(Prop::Sequence), Rule::Absent(Prop::Valarm), Rule::StatusIn(StatusSet::EventActive)],
        },
        Kind::Todo => match m {
            Method::Publish => seq![Rule::Present(Prop::Dtstart), Rule::Present(Prop::Organizer), Rule::Present(Prop::Priority), Rule::Present(Prop::Summary), Rule::Absent(Prop::Attendee), Rule::Absent(Prop::RequestStatus), Rule::StatusIn(StatusSet::TodoAll)],
            Method::Request => seq![Rule::Present(Prop::Attendee), Rule::Present(Prop::Dtstart), Rule::Present(Prop::Organizer), Rule::Present(Prop::Priority), Rule::Present(Prop::Summary), Rule::Absent(Prop::RequestStatus), Rule::StatusIn(StatusSet::TodoActive)],
            Method::Reply => seq![Rule::ExactlyOne(Prop::Attendee), Rule::Present(Prop::Organizer), Rule::Absent(Prop::Valarm)],
            Method::Add => seq![Rule::Present(Prop::Organizer), Rule::Present(Prop::Priority), Rule::PositiveSequence, Rule::Present(Prop::Summary), Rule::Absent(Prop::Exdate), Rule::Absent(Prop::RecurrenceId), Rule::Absent(Prop::RequestStatus), Rule::Absent(Prop::Rdate), Rule::Absent(Prop::Rrule), Rule::StatusIn(StatusSet::TodoActive)],
            Method::Cancel => seq![Rule::Present(Prop::Organizer), Rule::Present(Prop::Sequence), Rule::Absent(Prop::RequestStatus), Rule::Absent(Prop::Valarm)],
            Method::Refresh => seq![Rule::ExactlyOne(Prop::Attendee), Rule::Absent(Prop::Organizer), Rule::Absent(Prop::Attach), Rule::Absent(Prop::Categories), Rule::Absent(Prop::Class), Rule::Absent(Prop::Comment), Rule::Absent(Prop::Completed), Rule::Absent(Prop::Contact), Rule::Absent(Prop::Created), Rule::Absent(Prop::Description), Rule::Absent(Prop::Dtstart), Rule::Absent(Prop::Due), Rule::Absent(Prop::Duration), Rule::Absent(Prop::Geo), Rule::Absent(Prop::LastModified), Rule::Absent(Prop::Location), Rule::Absent(Prop::PercentComplete), Rule::Absent(Prop::Priority), Rule::Absent(Prop::RelatedTo), Rule::Absent(Prop::RequestStatus), Rule::Absent(Prop::Resources), Rule::Absent(Prop::Rrule), Rule::Absent(Prop::Sequence), Rule::Absent(Prop::Status), Rule::Absent(Prop::Url), Rule::Absent(Prop::Valarm)],
            Method::Counter => seq![Rule::Present(Prop::Attendee), Rule::Present(Prop::Organizer), Rule::Present(Prop::Priority), Rule::Present(Prop::Summary), Rule::StatusIn(StatusSet::TodoAll)],
            Method::DeclineCounter => seq![Rule::Present(Prop::Attendee), Rule::Present(Prop::Organizer), Rule::Present(Prop::Sequence), Rule::Absent(Prop::Valarm), Rule::StatusIn(StatusSet::TodoActive)],
        },
        Kind::Journal => match m {
            Method::Publish => seq![Rule::ExactlyOne(Prop::Description), Rule::Present(Prop::Dtstart), Rule::Present(Prop::Organizer), Rule::Absent(Prop::Attendee), Rule::Absent(Prop::RequestStatus), Rule::StatusIn(StatusSet::JournalAll)],
            Method::Add => seq![Rule::ExactlyOne(Prop::Description), Rule::Present(Prop::Dtstart), Rule::Present(Prop::Organizer), Rule::PositiveSequence, Rule::Absent(Prop::Attendee), Rule::Absent(Prop::Exdate), Rule::Absent(Prop::RecurrenceId), Rule::Absent(Prop::RequestStatus), Rule::Absent(Prop::Rdate), Rule::Absent(Prop::Rrule), Rule::StatusIn(StatusSet::JournalAll)],
            Method::Cancel => seq![Rule::Present(Prop::Organizer), Rule::Present(Prop::Sequence), Rule::Absent(Prop::Attendee), Rule::Absent(Prop::RequestStatus), Rule::StatusIn(StatusSet::CancelledOnly)],
            _ => seq![],
        },
        Kind::FreeBusy => match m {
            Method::Publish => seq![Rule::Present(Prop::Dtstamp), Rule::Present(Prop::Dtstart), Rule::Present(Prop::Dtend), Rule::Present(Prop::Organizer), Rule::Present(Prop::Uid), Rule::Absent(Prop::Attendee), Rule::Absent(Prop::RequestStatus)],
            Method::Request => seq![Rule::Present(Prop::Attendee), Rule::Present(Prop::Dtend), Rule::Present(Prop::Dtstamp), Rule::Present(Prop::Dtstart), Rule::Present(Prop::Organizer), Rule::Present(Prop::Uid), Rule::Absent(Prop::Freebusy), Rule::Absent(Prop::RequestStatus), Rule::Absent(Prop::Url)],
            Method::Reply => seq![Rule::ExactlyOne(Prop::Attendee), Rule::Present(Prop::Dtstamp), Rule::Present(Prop::Dtend), Rule::Present(Prop::Dtstart), Rule::Present(Prop::Organizer), Rule::Present(Prop::Uid)],
            _ => seq![],
        },
    }
}

/// The rules each component of kind `k` must meet under `m`.
fn rule_table(k: Kind, m: Method) -> (r: Vec<Rule>)
    ensures
        r@ == rules(k, m),
{
    match k {
        Kind::Event => match m {
            Method::Publish => vec![Rule::Present(Prop::Dtstart), Rule::Present(Prop::Organizer), Rule::Present(Prop::Summary), Rule::Absent(Prop::Attendee), Rule::Absent(Prop::RequestStatus), Rule::StatusIn(StatusSet::EventAll)],
            Method::Request => vec![Rule::Present(Prop::Attendee), Rule::Present(Prop::Dtstart), Rule::Present(Prop::Organizer), Rule::Present(Prop::Summary), Rule::Absent(Prop::RequestStatus), Rule::StatusIn(StatusSet::EventActive)],
            Method::Reply => vec![Rule::ExactlyOne(Prop::Attendee), Rule::Present(Prop::Organizer), Rule::Absent(Prop::Valarm)],
            Method::Add => vec![Rule::Present(Prop::Dtstart), Rule::Present(Prop::Organizer), Rule::PositiveSequence, Rule::Present(Prop::Summary), Rule::Absent(Prop::Exdate), Rule::Absent(Prop::RecurrenceId), Rule::Absent(Prop::RequestStatus), Rule::Absent(Prop::Rdate), Rule::Absent(Prop::Rrule), Rule::StatusIn(StatusSet::EventActive)],
            Method::Cancel => vec![Rule::Present(Prop::Organizer), Rule::Present(Prop::Sequence), Rule::Absent(Prop::RequestStatus), Rule::Absent(Prop::Valarm)],
            Method::Refresh => vec![Rule::ExactlyOne(Prop::Attendee), Rule::Present(Prop::Organizer), Rule::Absent(Prop::Attach), Rule::Absent(Prop::Categories), Rule::Absent(Prop::Class), Rule::Absent(Prop::Contact), Rule::Absent(Prop::Created), Rule::Absent(Prop::Description), Rule::Absent(Prop::Dtend), Rule::Absent(Prop::Dtstart), Rule::Absent(Prop::Duration), Rule::Absent(Prop::Exdate), Rule::Absent(Prop::Geo), Rule::Absent(Prop::LastModified), Rule::Absent(Prop::Location), Rule::Absent(Prop::Priority), Rule::Absent(Prop::Rdate), Rule::Absent(Prop::RelatedTo), Rule::Absent(Prop::RequestStatus), Rule::Absent(Prop::Resources), Rule::Absent(Prop::Rrule), Rule::Absent(Prop::Sequence), Rule::Absent(Prop::Status), Rule::Absent(Prop::Summary), Rule::Absent(Prop::Transp), Rule::Absent(Prop::Url), Rule::Absent(Prop::Valarm)],
            Method::Counter => vec![Rule::Present(Prop::Dtstart), Rule::Present(Prop::Organizer), Rule::Present(Prop::Sequence), Rule::Present(Prop::Summary), Rule::StatusIn(StatusSet::EventCounter)],
            Method::DeclineCounter => vec![Rule::Present(Prop::Attendee), Rule::Present(Prop::Organizer), Rule::Present(Prop::Sequence), Rule::Absent(Prop::Valarm), Rule::StatusIn(StatusSet::EventActive)],
        },
        Kind::Todo => match m {
            Method::Publish => vec![Rule::Present(Prop::Dtstart), Rule::Present(Prop::Organizer), Rule::Present(Prop::Priority), Rule::Present(Prop::Summary), Rule::Absent(Prop::Attendee), Rule::Absent(Prop::RequestStatus), Rule::StatusIn(StatusSet::TodoAll)],
            Method::Request => vec![Rule::Present(Prop::Attendee), Rule::Present(Prop::Dtstart), Rule::Present(Prop::Organizer), Rule::Present(Prop::Priority), Rule::Present(Prop::Summary), Rule::Absent(Prop::RequestStatus), Rule::StatusIn(StatusSet::TodoActive)],
            Method::Reply => vec![Rule::ExactlyOne(Prop::Attendee), Rule::Present(Prop::Organizer), Rule::Absent(Prop::Valarm)],
            Method::Add => vec![Rule::Present(Prop::Organizer), Rule::Present(Prop::Priority), Rule::PositiveSequence, Rule::Present(Prop::Summary), Rule::Absent(Prop::Exdate), Rule::Absent(Prop::RecurrenceId), Rule::Absent(Prop::RequestStatus), Rule::Absent(Prop::Rdate), Rule::Absent(Prop::Rrule), Rule::StatusIn(StatusSet::TodoActive)],
            Method::Cancel => vec![Rule::Present(Prop::Organizer), Rule::Present(Prop::Sequence), Rule::Absent(Prop::RequestStatus), Rule::Absent(Prop::Valarm)],
            Method::Refresh => vec![Rule::ExactlyOne(Prop::Attendee), Rule::Absent(Prop::Organizer), Rule::Absent(Prop::Attach), Rule::Absent(Prop::Categories), Rule::Absent(Prop::Class), Rule::Absent(Prop::Comment), Rule::Absent(Prop::Completed), Rule::Absent(Prop::Contact), Rule::Absent(Prop::Created), Rule::Absent(Prop::Description), Rule::Absent(Prop::Dtstart), Rule::Absent(Prop::Due), Rule::Absent(Prop::Duration), Rule::Absent(Prop::Geo), Rule::Absent(Prop::LastModified), Rule::Absent(Prop::Location), Rule::Absent(Prop::PercentComplete), Rule::Absent(Prop::Priority), Rule::Absent(Prop::RelatedTo), Rule::Absent(Prop::RequestStatus), Rule::Absent(Prop::Resources), Rule::Absent(Prop::Rrule), Rule::Absent(Prop::Sequence), Rule::Absent(Prop::Status), Rule::Absent(Prop::Url), Rule::Absent(Prop::Valarm)],
            Method::Counter => vec![Rule::Present(Prop::Attendee), Rule::Present(Prop::Organizer), Rule::Present(Prop::Priority), Rule::Present(Prop::Summary), Rule::StatusIn(StatusSet::TodoAll)],
            Method::DeclineCounter => vec![Rule::Present(Prop::Attendee), Rule::Present(Prop::Organizer), Rule::Present(Prop::Sequence), Rule::Absent(Prop::Valarm), Rule::StatusIn(StatusSet::TodoActive)],
        },
        Kind::Journal => match m {
            Method::Publish => vec![Rule::ExactlyOne(Prop::Description), Rule::Present(Prop::Dtstart), Rule::Present(Prop::Organizer), Rule::Absent(Prop::Attendee), Rule::Absent(Prop::RequestStatus), Rule::StatusIn(StatusSet::JournalAll)],
            Method::Add => vec![Rule::ExactlyOne(Prop::Description), Rule::Present(Prop::Dtstart), Rule::Present(Prop::Organizer), Rule::PositiveSequence, Rule::Absent(Prop::Attendee), Rule::Absent(Prop::Exdate), Rule::Absent(Prop::RecurrenceId), Rule::Absent(Prop::RequestStatus), Rule::Absent(Prop::Rdate), Rule::Absent(Prop::Rrule), Rule::StatusIn(StatusSet::JournalAll)],
            Method::Cancel => vec![Rule::Present(Prop::Organizer), Rule::Present(Prop::Sequence), Rule::Absent(Prop::Attendee), Rule::Absent(Prop::RequestStatus), Rule::StatusIn(StatusSet::CancelledOnly)],
            _ => vec![],
        },
        Kind::FreeBusy => match m {
            Method::Publish => vec![Rule::Present(Prop::Dtstamp), Rule::Present(Prop::Dtstart), Rule::Present(Prop::Dtend), Rule::Present(Prop::Organizer), Rule::Present(Prop::Uid), Rule::Absent(Prop::Attendee), Rule::Absent(Prop::RequestStatus)],
            Method::Request => vec![Rule::Present(Prop::Attendee), Rule::Present(Prop::Dtend), Rule::Present(Prop::Dtstamp), Rule::Present(Prop::Dtstart), Rule::Present(Prop::Organizer), Rule::Present(Prop::Uid), Rule::Absent(Prop::Freebusy), Rule::Absent(Prop::RequestStatus), Rule::Absent(Prop::Url)],
            Method::Reply => vec![Rule::ExactlyOne(Prop::Attendee), Rule::Present(Prop::Dtstamp), Rule::Present(Prop::Dtend), Rule::Present(Prop::Dtstart), Rule::Present(Prop::Organizer), Rule::Present(Prop::Uid)],
            _ => vec![],
        },
    }
}

/// The kind of `c`, when iTIP restricts it.
pub open spec fn kind_of(c: Component) -> Option<Kind> {
    match c {
        Component::Event(_) => Some(Kind::Event),
        Component::Todo(_) => Some(Kind::Todo),
        Component::Journal(_) => Some(Kind::Journal),
        Component::FreeBusy(_) => Some(Kind::FreeBusy),
        _ => None,
    }
}

/// The kind of `c`, when iTIP restricts it.
fn kind(c: &Component) -> (r: Option<Kind>)
    ensures
        r == kind_of(*c),
{
    match c {
        Component::Event(_) => Some(Kind::Event),
        Component::Todo(_) => Some(Kind::Todo),
        Component::Journal(_) => Some(Kind::Journal),
        Component::FreeBusy(_) => Some(Kind::FreeBusy),
        _ => None,
    }
}

/// 1 when the value is there, else 0.
pub open spec fn present<T>(o: Option<T>) -> nat {
    if o is Some {
        1
    } else {
        0
    }
}

/// How many times `p` occurs in a `VEVENT` (0 for what it cannot hold).
pub open spec fn event_count(q: EventParts, p: Prop) -> nat {
    match p {
        Prop::Dtstamp => 1,
        Prop::Uid => 1,
        Prop::Dtstart => present(q.dtstart),
        Prop::Class => present(q.class),
        Prop::Created => present(q.created),
        Prop::Description => present(q.description),
        Prop::Geo => present(q.geo),
        Prop::LastModified => present(q.last_mod),
        Prop::Location => present(q.location),
        Prop::Organizer => present(q.organizer),
        Prop::Priority => present(q.priority),
        Prop::Sequence => present(q.seq),
        Prop::Status => present(q.status),
        Prop::Summary => present(q.summary),
        Prop::Transp => present(q.transp),
        Prop::Url => present(q.url),
        Prop::RecurrenceId => present(q.recurid),
        Prop::Rrule => present(q.rrule),
        Prop::Dtend => present(q.dtend),
        Prop::Duration => present(q.duration),
        Prop::Attach => q.attach.len(),
        Prop::Attendee => q.attendee.len(),
        Prop::Categories => q.categories.len(),
        Prop::Comment => q.comment.len(),
        Prop::Contact => q.contact.len(),
        Prop::Exdate => q.exdate.len(),
        Prop::RequestStatus => q.rstatus.len(),
        Prop::RelatedTo => q.related.len(),
        Prop::Resources => q.resources.len(),
        Prop::Rdate => q.rdate.len(),
        Prop::Valarm => q.alarms.len(),
        _ => 0,
    }
}

/// How many times `p` occurs in a `VTODO` (0 for what it cannot hold).
pub open spec fn todo_count(q: TodoParts, p: Prop) -> nat {
    match p {
        Prop::Dtstamp => 1,
        Prop::Uid => 1,
        Prop::Class => present(q.class),
        Prop::Completed => present(q.completed),
        Prop::Created => present(q.created),
        Prop::Description => present(q.description),
        Prop::Dtstart => present(q.dtstart),
        Prop::Geo => present(q.geo),
        Prop::LastModified => present(q.last_mod),
        Prop::Location => present(q.location),
        Prop::Organizer => present(q.organizer),
        Prop::PercentComplete => present(q.percent),
        Prop::Priority => present(q.priority),
        Prop::RecurrenceId => present(q.recur_id),
        Prop::Sequence => present(q.seq),
        Prop::Status => present(q.status),
        Prop::Summary => present(q.summary),
        Prop::Url => present(q.url),
        Prop::Rrule => present(q.rrule),
        Prop::Due => present(q.due),
        Prop::Duration => present(q.duration),
        Prop::Attach => q.attach.len(),
        Prop::Attendee => q.attendee.len(),
        Prop::Categories => q.categories.len(),
        Prop::Comment => q.comment.len(),
        Prop::Contact => q.contact.len(),
        Prop::Exdate => q.exdate.len(),
        Prop::RequestStatus => q.rstatus.len(),
        Prop::RelatedTo => q.related.len(),
        Prop::Resources => q.resources.len(),
        Prop::Rdate => q.rdate.len(),
        Prop::Valarm => q.alarms.len(),
        _ => 0,
    }
}

/// How many times `p` occurs in a `VJOURNAL` (0 for what it cannot hold).
pub open spec fn journal_count(q: JournalParts, p: Prop) -> nat {
    match p {
        Prop::Dtstamp => 1,
        Prop::Uid => 1,
        Prop::Class => present(q.class),
        Prop::Created => present(q.created),
        Prop::Dtstart => present(q.dtstart),
        Prop::LastModified => present(q.last_mod),
        Prop::Organizer => present(q.organizer),
        Prop::RecurrenceId => present(q.recurid),
        Prop::Sequence => present(q.seq),
        Prop::Status => present(q.status),
        Prop::Summary => present(q.summary),
        Prop::Url => present(q.url),
        Prop::Rrule => present(q.rrule),
        Prop::Attach => q.attach.len(),
        Prop::Attendee => q.attendee.len(),
        Prop::Categories => q.categories.len(),
        Prop::Comment => q.comment.len(),
        Prop::Contact => q.contact.len(),
        Prop::Description => q.description.len(),
        Prop::Exdate => q.exdate.len(),
        Prop::RelatedTo => q.related.len(),
        Prop::Rdate => q.rdate.len(),
        Prop::RequestStatus => q.rstatus.len(),
        _ => 0,
    }
}

/// How many times `p` occurs in a `VFREEBUSY` (0 for what it cannot hold).
pub open spec fn free_busy_count(q: FreeBusyParts, p: Prop) -> nat {
    match p {
        Prop::Dtstamp => present(q.dtstamp),
        Prop::Uid => present(q.uid),
        Prop::Contact => present(q.contact),
        Prop::Dtstart => present(q.dtstart),
        Prop::Dtend => present(q.dtend),
        Prop::Organizer => present(q.organizer),
        Prop::Url => present(q.url),
        Prop::Attendee => q.attendee.len(),
        Prop::Comment => q.comment.len(),
        Prop::Freebusy => q.freebusy.len(),
        Prop::RequestStatus => q.rstatus.len(),
        _ => 0,
    }
}

/// How many times `p` occurs in `c`.
pub open spec fn prop_count(c: Component, p: Prop) -> nat {
    match c {
        Component::Event(e) => event_count(e.parts(), p),
        Component::Todo(t) => todo_count(t.parts(), p),
        Component::Journal(j) => journal_count(j.parts(), p),
        Component::FreeBusy(f) => free_busy_count(f.parts(), p),
        _ => 0,
    }
}

/// How many times `p` occurs in `c`.
fn count(c: &Component, p: Prop) -> (r: usize)
    ensures
        r == prop_count(*c, p),
{
    match c {
        Component::Event(e) => match p {
            Prop::Dtstamp => 1,
            Prop::Uid => 1,
            Prop::Dtstart => if e.dtstart().is_some() { 1 } else { 0 },
            Prop::Class => if e.class().is_some() { 1 } else { 0 },
            Prop::Created => if e.created().is_some() { 1 } else { 0 },
            Prop::Description => if e.description().is_some() { 1 } else { 0 },
            Prop::Geo => if e.geo().is_some() { 1 } else { 0 },
            Prop::LastModified => if e.last_mod().is_some() { 1 } else { 0 },
            Prop::Location => if e.location().is_some() { 1 } else { 0 },
            Prop::Organizer => if e.organizer().is_some() { 1 } else { 0 },
            Prop::Priority => if e.priority().is_some() { 1 } else { 0 },
            Prop::Sequence => if e.seq().is_some() { 1 } else { 0 },
            Prop::Status => if e.status().is_some() { 1 } else { 0 },
            Prop::Summary => if e.summary().is_some() { 1 } else { 0 },
            Prop::Transp => if e.transp().is_some() { 1 } else { 0 },
            Prop::Url => if e.url().is_some() { 1 } else { 0 },
            Prop::RecurrenceId => if e.recurid().is_some() { 1 } else { 0 },
            Prop::Rrule => if e.rrule().is_some() { 1 } else { 0 },
            Prop::Dtend => if e.dtend().is_some() { 1 } else { 0 },
            Prop::Duration => if e.duration().is_some() { 1 } else { 0 },
            Prop::Attach => e.attach().len(),
            Prop::Attendee => e.attendee().len(),
            Prop::Categories => e.categories().len(),
            Prop::Comment => e.comment().len(),
            Prop::Contact => e.contact().len(),
            Prop::Exdate => e.exdate().len(),
            Prop::RequestStatus => e.rstatus().len(),
            Prop::RelatedTo => e.related().len(),
            Prop::Resources => e.resources().len(),
            Prop::Rdate => e.rdate().len(),
            Prop::Valarm => e.alarms().len(),
            _ => 0,
        },
        Component::Todo(t) => match p {
            Prop::Dtstamp => 1,
            Prop::Uid => 1,
            Prop::Class => if t.class().is_some() { 1 } else { 0 },
            Prop::Completed => if t.completed().is_some() { 1 } else { 0 },
            Prop::Created => if t.created().is_some() { 1 } else { 0 },
            Prop::Description => if t.description().is_some() { 1 } else { 0 },
            Prop::Dtstart => if t.dtstart().is_some() { 1 } else { 0 },
            Prop::Geo => if t.geo().is_some() { 1 } else { 0 },
            Prop::LastModified => if t.last_mod().is_some() { 1 } else { 0 },
            Prop::Location => if t.location().is_some() { 1 } else { 0 },
            Prop::Organizer => if t.organizer().is_some() { 1 } else { 0 },
            Prop::PercentComplete => if t.percent().is_some() { 1 } else { 0 },
            Prop::Priority => if t.priority().is_some() { 1 } else { 0 },
            Prop::RecurrenceId => if t.recur_id().is_some() { 1 } else { 0 },
            Prop::Sequence => if t.seq().is_some() { 1 } else { 0 },
            Prop::Status => if t.status().is_some() { 1 } else { 0 },
            Prop::Summary => if t.summary().is_some() { 1 } else { 0 },
            Prop::Url => if t.url().is_some() { 1 } else { 0 },
            Prop::Rrule => if t.rrule().is_some() { 1 } else { 0 },
            Prop::Due => if t.due().is_some() { 1 } else { 0 },
            Prop::Duration => if t.duration().is_some() { 1 } else { 0 },
            Prop::Attach => t.attach().len(),
            Prop::Attendee => t.attendee().len(),
            Prop::Categories => t.categories().len(),
            Prop::Comment => t.comment().len(),
            Prop::Contact => t.contact().len(),
            Prop::Exdate => t.exdate().len(),
            Prop::RequestStatus => t.rstatus().len(),
            Prop::RelatedTo => t.related().len(),
            Prop::Resources => t.resources().len(),
            Prop::Rdate => t.rdate().len(),
            Prop::Valarm => t.alarms().len(),
            _ => 0,
        },
        Component::Journal(j) => match p {
            Prop::Dtstamp => 1,
            Prop::Uid => 1,
            Prop::Class => if j.class().is_some() { 1 } else { 0 },
            Prop::Created => if j.created().is_some() { 1 } else { 0 },
            Prop::Dtstart => if j.dtstart().is_some() { 1 } else { 0 },
            Prop::LastModified => if j.last_mod().is_some() { 1 } else { 0 },
            Prop::Organizer => if j.organizer().is_some() { 1 } else { 0 },
            Prop::RecurrenceId => if j.recurid().is_some() { 1 } else { 0 },
            Prop::Sequence => if j.seq().is_some() { 1 } else { 0 },
            Prop::Status => if j.status().is_some() { 1 } else { 0 },
            Prop::Summary => if j.summary().is_some() { 1 } else { 0 },
            Prop::Url => if j.url().is_some() { 1 } else { 0 },
            Prop::Rrule => if j.rrule().is_some() { 1 } else { 0 },
            Prop::Attach => j.attach().len(),
            Prop::Attendee => j.attendee().len(),
            Prop::Categories => j.categories().len(),
            Prop::Comment => j.comment().len(),
            Prop::Contact => j.contact().len(),
            Prop::Description => j.description().len(),
            Prop::Exdate => j.exdate().len(),
            Prop::RelatedTo => j.related().len(),
            Prop::Rdate => j.rdate().len(),
            Prop::RequestStatus => j.rstatus().len(),
            _ => 0,
        },
        Component::FreeBusy(f) => match p {
            Prop::Dtstamp => if f.dtstamp().is_some() { 1 } else { 0 },
            Prop::Uid => if f.uid().is_some() { 1 } else { 0 },
            Prop::Contact => if f.contact().is_some() { 1 } else { 0 },
            Prop::Dtstart => if f.dtstart().is_some() { 1 } else { 0 },
            Prop::Dtend => if f.dtend().is_some() { 1 } else { 0 },
            Prop::Organizer => if f.organizer().is_some() { 1 } else { 0 },
            Prop::Url => if f.url().is_some() { 1 } else { 0 },
            Prop::Attendee => f.attendee().len(),
            Prop::Comment => f.comment().len(),
            Prop::Freebusy => f.freebusy().len(),
            Prop::RequestStatus => f.rstatus().len(),
            _ => 0,
        },
        _ => 0,
    }
}

/// `STATUS`'s value in `c`, if it has one.
pub open spec fn status_of(c: Component) -> Option<StatusValue> {
    let s = match c {
        Component::Event(e) => e.parts().status,
        Component::Todo(t) => t.parts().status,
        Component::Journal(j) => j.parts().status,
        _ => None,
    };
    match s {
        Some(x) => Some(x.spec_value()),
        None => None,
    }
}

/// `STATUS`'s value in `c`, if it has one.
fn status(c: &Component) -> (r: Option<&StatusValue>)
    ensures
        match r {
            Some(v) => status_of(*c) == Some(*v),
            None => status_of(*c) is None,
        },
{
    let s = match c {
        Component::Event(e) => e.status(),
        Component::Todo(t) => t.status(),
        Component::Journal(j) => j.status(),
        _ => None,
    };
    match s {
        Some(x) => Some(x.value()),
        None => None,
    }
}

/// `SEQUENCE`'s value in `c`, if it has one.
pub open spec fn sequence_of(c: Component) -> Option<int> {
    let s = match c {
        Component::Event(e) => e.parts().seq,
        Component::Todo(t) => t.parts().seq,
        Component::Journal(j) => j.parts().seq,
        _ => None,
    };
    match s {
        Some(x) => Some(x.spec_value().spec_value()),
        None => None,
    }
}

/// `SEQUENCE`'s value in `c`, if it has one.
fn sequence(c: &Component) -> (r: Option<i32>)
    ensures
        match r {
            Some(n) => sequence_of(*c) == Some(n as int),
            None => sequence_of(*c) is None,
        },
{
    let s = match c {
        Component::Event(e) => e.seq(),
        Component::Todo(t) => t.seq(),
        Component::Journal(j) => j.seq(),
        _ => None,
    };
    match s {
        Some(x) => Some(x.value().value()),
        None => None,
    }
}

/// `UID`'s text in `c`, if it has one.
pub open spec fn uid_of(c: Component) -> Option<Seq<char>> {
    match c {
        Component::Event(e) => Some(e.parts().uid.spec_value()@),
        Component::Todo(t) => Some(t.parts().uid.spec_value()@),
        Component::Journal(j) => Some(j.parts().uid.spec_value()@),
        Component::FreeBusy(f) => match f.parts().uid {
            Some(u) => Some(u.spec_value()@),
            None => None,
        },
        _ => None,
    }
}

/// The text an optional string holds.
pub open spec fn text_of(u: Option<&str>) -> Option<Seq<char>> {
    match u {
        Some(x) => Some(x@),
        None => None,
    }
}

/// `UID`'s text in `c`, if it has one.
fn uid(c: &Component) -> (r: Option<&str>)
    ensures
        text_of(r) == uid_of(*c),
{
    match c {
        Component::Event(e) => Some(e.uid().value().as_str()),
        Component::Todo(t) => Some(t.uid().value().as_str()),
        Component::Journal(j) => Some(j.uid().value().as_str()),
        Component::FreeBusy(f) => match f.uid() {
            Some(u) => Some(u.value().as_str()),
            None => None,
        },
        _ => None,
    }
}

/// The error `c` gives under rule `r`, if it breaks it.
pub open spec fn rule_violation(m: Method, k: Kind, c: Component, r: Rule) -> Option<ItipError> {
    match r {
        Rule::Present(p) => if prop_count(c, p) == 0 {
            Some(ItipError::MissingProperty { method: m.token(), component: k.token(), property: p.token() })
        } else {
            None
        },
        Rule::Absent(p) => if prop_count(c, p) > 0 {
            Some(ItipError::ProhibitedProperty { method: m.token(), component: k.token(), property: p.token() })
        } else {
            None
        },
        Rule::ExactlyOne(p) => if prop_count(c, p) != 1 {
            Some(
                ItipError::WrongCardinality {
                    method: m.token(),
                    component: k.token(),
                    property: p.token(),
                    expected: "MUST occur exactly once",
                },
            )
        } else {
            None
        },
        Rule::PositiveSequence => match sequence_of(c) {
            None => Some(ItipError::MissingProperty { method: m.token(), component: k.token(), property: "SEQUENCE" }),
            Some(n) => if n <= 0 {
                Some(ItipError::SequenceMustBePositive { method: m.token(), component: k.token() })
            } else {
                None
            },
        },
        Rule::StatusIn(s) => match status_of(c) {
            Some(v) => if s.admits(v) {
                None
            } else {
                Some(ItipError::InvalidStatus { method: m.token(), component: k.token(), allowed: s.token() })
            },
            None => None,
        },
    }
}

/// The error `c` gives under rule `r`, if it breaks it.
fn check_rule(m: Method, k: Kind, c: &Component, r: Rule) -> (e: Option<ItipError>)
    ensures
        e == rule_violation(m, k, *c, r),
{
    match r {
        Rule::Present(p) => if count(c, p) == 0 {
            Some(ItipError::MissingProperty { method: m.as_str(), component: k.as_str(), property: p.as_str() })
        } else {
            None
        },
        Rule::Absent(p) => if count(c, p) > 0 {
            Some(ItipError::ProhibitedProperty { method: m.as_str(), component: k.as_str(), property: p.as_str() })
        } else {
            None
        },
        Rule::ExactlyOne(p) => if count(c, p) != 1 {
            Some(
                ItipError::WrongCardinality {
                    method: m.as_str(),
                    component: k.as_str(),
                    property: p.as_str(),
                    expected: "MUST occur exactly once",
                },
            )
        } else {
            None
        },
        Rule::PositiveSequence => match sequence(c) {
            None => Some(ItipError::MissingProperty { method: m.as_str(), component: k.as_str(), property: "SEQUENCE" }),
            Some(n) => if n <= 0 {
                Some(ItipError::SequenceMustBePositive { method: m.as_str(), component: k.as_str() })
            } else {
                None
            },
        },
        Rule::StatusIn(s) => match status(c) {
            Some(v) => if s.contains(v) {
                None
            } else {
                Some(ItipError::InvalidStatus { method: m.as_str(), component: k.as_str(), allowed: s.as_str() })
            },
            None => None,
        },
    }
}

/// The first rule of `rs` that `c` breaks, as an error.
pub open spec fn rules_violation(m: Method, k: Kind, c: Component, rs: Seq<Rule>) -> Option<ItipError>
    decreases rs.len(),
{
    if rs.len() == 0 {
        None
    } else {
        match rules_violation(m, k, c, rs.drop_last()) {
            Some(e) => Some(e),
            None => rule_violation(m, k, c, rs.last()),
        }
    }
}

/// A rule broken within the first `i` rules is the first broken of all.
proof fn lemma_rules_prefix(m: Method, k: Kind, c: Component, rs: Seq<Rule>, i: int)
    requires
        0 <= i <= rs.len(),
        rules_violation(m, k, c, rs.take(i)) is Some,
    ensures
        rules_violation(m, k, c, rs) == rules_violation(m, k, c, rs.take(i)),
    decreases rs.len() - i,
{
    if i < rs.len() {
        assert(rs.drop_last().take(i) =~= rs.take(i));
        lemma_rules_prefix(m, k, c, rs.drop_last(), i);
    } else {
        assert(rs.take(i) =~= rs);
    }
}

/// The first rule of `rs` that `c` breaks, as an error.
fn check_rules(m: Method, k: Kind, c: &Component, rs: &Vec<Rule>) -> (e: Option<ItipError>)
    ensures
        e == rules_violation(m, k, *c, rs@),
{
    let mut i: usize = 0;
    while i < rs.len()
        invariant
            i <= rs.len(),
            rules_violation(m, k, *c, rs@.take(i as int)) is None,
        decreases rs.len() - i,
    {
        assert(rs@.take(i + 1).drop_last() =~= rs@.take(i as int));
        match check_rule(m, k, c, rs[i]) {
            Some(e) => {
                proof {
                    lemma_rules_prefix(m, k, *c, rs@, i + 1);
                }
                return Some(e);
            },
            None => {},
        }
        i += 1;
    }
    assert(rs@.take(rs.len() as int) =~= rs@);
    None
}

/// The first error a component of kind `k` in `cs` gives, in order.
pub open spec fn components_violation(m: Method, k: Kind, cs: Seq<Component>) -> Option<ItipError>
    decreases cs.len(),
{
    if cs.len() == 0 {
        None
    } else {
        match components_violation(m, k, cs.drop_last()) {
            Some(e) => Some(e),
            None => if kind_of(cs.last()) == Some(k) {
                rules_violation(m, k, cs.last(), rules(k, m))
            } else {
                None
            },
        }
    }
}

/// An error among the first `i` components is the first error of all.
proof fn lemma_components_prefix(m: Method, k: Kind, cs: Seq<Component>, i: int)
    requires
        0 <= i <= cs.len(),
        components_violation(m, k, cs.take(i)) is Some,
    ensures
        components_violation(m, k, cs) == components_violation(m, k, cs.take(i)),
    decreases cs.len() - i,
{
    if i < cs.len() {
        assert(cs.drop_last().take(i) =~= cs.take(i));
        lemma_components_prefix(m, k, cs.drop_last(), i);
    } else {
        assert(cs.take(i) =~= cs);
    }
}

/// How many components of kind `k` `cs` holds.
pub open spec fn kind_count(cs: Seq<Component>, k: Kind) -> nat
    decreases cs.len(),
{
    if cs.len() == 0 {
        0
    } else {
        kind_count(cs.drop_last(), k) + if kind_of(cs.last()) == Some(k) {
            1nat
        } else {
            0nat
        }
    }
}

/// How many components of kind `k` `cs` holds.
fn count_kind(cs: &[Component], k: Kind) -> (r: usize)
    ensures
        r == kind_count(cs@, k),
{
    let mut n: usize = 0;
    let mut i: usize = 0;
    while i < cs.len()
        invariant
            i <= cs.len(),
            n <= i,
            n == kind_count(cs@.take(i as int), k),
        decreases cs.len() - i,
    {
        assert(cs@.take(i + 1).drop_last() =~= cs@.take(i as int));
        if let Some(x) = kind(&cs[i]) {
            if x == k {
                n += 1;
            }
        }
        i += 1;
    }
    assert(cs@.take(cs.len() as int) =~= cs@);
    n
}

/// Whether every component of kind `k` in `cs` has the same `UID`.
pub open spec fn uids_agree(cs: Seq<Component>, k: Kind) -> bool {
    forall|i: int, j: int|
        0 <= i < cs.len() && 0 <= j < cs.len() && kind_of(#[trigger] cs[i]) == Some(k) && kind_of(
            #[trigger] cs[j],
        ) == Some(k) ==> uid_of(cs[i]) == uid_of(cs[j])
}

/// Whether every component of kind `k` in `cs` has the same `UID`.
fn uids_match(cs: &[Component], k: Kind) -> (r: bool)
    ensures
        r == uids_agree(cs@, k),
{
    let mut first: Option<Option<&str>> = None;
    let mut i: usize = 0;
    while i < cs.len()
        invariant
            i <= cs.len(),
            first is None ==> forall|j: int| 0 <= j < i ==> kind_of(#[trigger] cs@[j]) != Some(k),
            first matches Some(u) ==> exists|j: int| 0 <= j < i && kind_of(#[trigger] cs@[j]) == Some(k) && uid_of(cs@[j]) == text_of(u),
            first matches Some(u) ==> forall|j: int|
                0 <= j < i && kind_of(#[trigger] cs@[j]) == Some(k) ==> uid_of(cs@[j]) == text_of(u),
        decreases cs.len() - i,
    {
        if let Some(x) = kind(&cs[i]) {
            if x == k {
                let u = uid(&cs[i]);
                match first {
                    None => {
                        first = Some(u);
                    },
                    Some(f) => {
                        if !same_zone(f, u) {
                            proof {
                                let j0 = choose|j: int| 0 <= j < i && kind_of(#[trigger] cs@[j]) == Some(k) && uid_of(cs@[j]) == text_of(f);
                                assert(kind_of(cs@[i as int]) == Some(k));
                                assert(uid_of(cs@[j0]) != uid_of(cs@[i as int]));
                            }
                            return false;
                        }
                    },
                }
            }
        }
        i += 1;
    }
    true
}

/// What iTIP asks of the components of kind `k` in `cs` under `m`.
pub open spec fn kind_check(m: Method, k: Kind, cs: Seq<Component>) -> Result<(), ItipError> {
    if !supported(k, m) {
        Err(ItipError::UnsupportedMethod { method: m.token(), component: k.token() })
    } else if single(k, m) && kind_count(cs, k) != 1 {
        Err(ItipError::ComponentCount { method: m.token(), component: k.token(), expected: "exactly one" })
    } else {
        match components_violation(m, k, cs) {
            Some(e) => Err(e),
            None => if same_uid_required(k, m) && !uids_agree(cs, k) {
                Err(ItipError::InconsistentUid { method: m.token(), component: k.token() })
            } else {
                Ok(())
            },
        }
    }
}

/// Whether `m` has any meaning for components of kind `k`.
fn is_supported(k: Kind, m: Method) -> (r: bool)
    ensures
        r == supported(k, m),
{
    match k {
        Kind::Event => true,
        Kind::Todo => true,
        Kind::Journal => matches!(m, Method::Publish | Method::Add | Method::Cancel),
        Kind::FreeBusy => matches!(m, Method::Publish | Method::Request | Method::Reply),
    }
}

/// Whether `m` allows exactly one component of kind `k`.
fn is_single(k: Kind, m: Method) -> (r: bool)
    ensures
        r == single(k, m),
{
    match k {
        Kind::Event => matches!(m, Method::Add | Method::Refresh | Method::Counter),
        Kind::Todo => matches!(m, Method::Add | Method::Refresh | Method::Counter | Method::DeclineCounter),
        Kind::Journal => matches!(m, Method::Add),
        Kind::FreeBusy => matches!(m, Method::Request | Method::Reply),
    }
}

/// Whether `m` requires every component of kind `k` to share one `UID`.
fn needs_same_uid(k: Kind, m: Method) -> (r: bool)
    ensures
        r == same_uid_required(k, m),
{
    match k {
        Kind::Event => matches!(m, Method::Request | Method::Reply | Method::Cancel | Method::DeclineCounter),
        Kind::Todo => matches!(m, Method::Request | Method::Reply),
        Kind::Journal => matches!(m, Method::Cancel),
        Kind::FreeBusy => false,
    }
}

/// Checks the components of kind `k` in `cs` against what `m` asks of
/// them: the method must apply to the kind, the count must be right, every
/// component must meet the rules in order, and, where asked, all must share
/// one `UID`.
pub fn check_kind(m: Method, k: Kind, cs: &[Component]) -> (r: Result<(), ItipError>)
    ensures
        r == kind_check(m, k, cs@),
{
    if !is_supported(k, m) {
        return Err(ItipError::UnsupportedMethod { method: m.as_str(), component: k.as_str() });
    }
    if is_single(k, m) && count_kind(cs, k) != 1 {
        return Err(ItipError::ComponentCount { method: m.as_str(), component: k.as_str(), expected: "exactly one" });
    }
    let table = rule_table(k, m);
    let mut i: usize = 0;
    while i < cs.len()
        invariant
            i <= cs.len(),
            table@ == rules(k, m),
            supported(k, m),
            !(single(k, m) && kind_count(cs@, k) != 1),
            components_violation(m, k, cs@.take(i as int)) is None,
        decreases cs.len() - i,
    {
        assert(cs@.take(i + 1).drop_last() =~= cs@.take(i as int));
        if let Some(x) = kind(&cs[i]) {
            if x == k {
                match check_rules(m, k, &cs[i], &table) {
                    Some(e) => {
                        proof {
                            assert(cs@.take(i + 1).last() == cs@[i as int]);
                            lemma_components_prefix(m, k, cs@, i + 1);
                        }
                        return Err(e);
                    },
                    None => {},
                }
            }
        }
        i += 1;
    }
    assert(cs@.take(cs.len() as int) =~= cs@);
    if needs_same_uid(k, m) && !uids_match(cs, k) {
        return Err(ItipError::InconsistentUid { method: m.as_str(), component: k.as_str() });
    }
    Ok(())
}

/// Whether `cs` holds a `VAVAILABILITY`, on which RFC 5546 is silent.
pub open spec fn has_availability(cs: Seq<Component>) -> bool {
    exists|i: int| 0 <= i < cs.len() && #[trigger] cs[i] is Availability
}

/// 1 when `cs` holds a component of kind `k`, else 0.
pub open spec fn kind_present(cs: Seq<Component>, k: Kind) -> nat {
    if kind_count(cs, k) > 0 {
        1
    } else {
        0
    }
}

/// What iTIP asks of a calendar's components under `m`: nothing when one
/// is a `VAVAILABILITY`; a single component type apart from `VTIMEZONE`;
/// and the rules of that type.
pub open spec fn itip_check(m: Method, cs: Seq<Component>) -> Result<(), ItipError> {
    if has_availability(cs) {
        Ok(())
    } else if kind_present(cs, Kind::Event) + kind_present(cs, Kind::Todo) + kind_present(cs, Kind::Journal)
        + kind_present(cs, Kind::FreeBusy) > 1 {
        Err(ItipError::MixedComponentTypes(m.token()))
    } else if kind_count(cs, Kind::Event) > 0 {
        kind_check(m, Kind::Event, cs)
    } else if kind_count(cs, Kind::Todo) > 0 {
        kind_check(m, Kind::Todo, cs)
    } else if kind_count(cs, Kind::Journal) > 0 {
        kind_check(m, Kind::Journal, cs)
    } else if kind_count(cs, Kind::FreeBusy) > 0 {
        kind_check(m, Kind::FreeBusy, cs)
    } else {
        Ok(())
    }
}

/// Checks a calendar's components against what `m` asks of them.
pub fn check_components(m: Method, cs: &[Component]) -> (r: Result<(), ItipError>)
    ensures
        r == itip_check(m, cs@),
{
    let mut i: usize = 0;
    while i < cs.len()
        invariant
            i <= cs.len(),
            forall|j: int| 0 <= j < i ==> !(#[trigger] cs@[j] is Availability),
        decreases cs.len() - i,
    {
        if let Component::Availability(_) = &cs[i] {
            assert(cs@[i as int] is Availability);
            return Ok(());
        }
        i += 1;
    }
    let ne = count_kind(cs, Kind::Event);
    let nt = count_kind(cs, Kind::Todo);
    let nj = count_kind(cs, Kind::Journal);
    let nf = count_kind(cs, Kind::FreeBusy);
    let mut present: usize = 0;
    if ne > 0 {
        present += 1;
    }
    if nt > 0 {
        present += 1;
    }
    if nj > 0 {
        present += 1;
    }
    if nf > 0 {
        present += 1;
    }
    if present > 1 {
        return Err(ItipError::MixedComponentTypes(m.as_str()));
    }
    if ne > 0 {
        check_kind(m, Kind::Event, cs)
    } else if nt > 0 {
        check_kind(m, Kind::Todo, cs)
    } else if nj > 0 {
        check_kind(m, Kind::Journal, cs)
    } else if nf > 0 {
        check_kind(m, Kind::FreeBusy, cs)
    } else {
        Ok(())
    }
}

/// What iTIP asks of a calendar whose `METHOD` is `method`: nothing unless
/// the method is one of the 8 RFC 5546 defines.
pub open spec fn itip_validation(method: MethodProperty, cs: Seq<Component>) -> Result<(), ItipError> {
    match Method::keyword(method.spec_value().bytes()) {
        Some(m) => itip_check(m, cs),
        None => Ok(()),
    }
}

/// Validates a calendar's components against RFC 5546's restriction tables
/// for the method `method` names, when it names one of the 8 (and does
/// nothing otherwise).
pub fn validate(method: &MethodProperty, components: &[Component]) -> (r: Result<(), ItipError>)
    ensures
        r == itip_validation(*method, components@),
{
    match Method::recognized(method) {
        Some(m) => check_components(m, components),
        None => Ok(()),
    }
}


/// No rule of `rs` is broken by `c` when none is reported.
proof fn lemma_rules_hold(m: Method, k: Kind, c: Component, rs: Seq<Rule>, j: int)
    requires
        rules_violation(m, k, c, rs) is None,
        0 <= j < rs.len(),
    ensures
        rule_violation(m, k, c, rs[j]) is None,
    decreases rs.len(),
{
    if j < rs.len() - 1 {
        assert(rs.drop_last()[j] == rs[j]);
        lemma_rules_hold(m, k, c, rs.drop_last(), j);
    }
}

/// No component of kind `k` breaks a rule when none is reported.
proof fn lemma_components_hold(m: Method, k: Kind, cs: Seq<Component>, i: int)
    requires
        components_violation(m, k, cs) is None,
        0 <= i < cs.len(),
        kind_of(cs[i]) == Some(k),
    ensures
        rules_violation(m, k, cs[i], rules(k, m)) is None,
    decreases cs.len(),
{
    if i < cs.len() - 1 {
        assert(cs.drop_last()[i] == cs[i]);
        lemma_components_hold(m, k, cs.drop_last(), i);
    }
}

/// A component of kind `k` makes `kind_count` positive.
proof fn lemma_kind_counted(cs: Seq<Component>, i: int, k: Kind)
    requires
        0 <= i < cs.len(),
        kind_of(cs[i]) == Some(k),
    ensures
        kind_count(cs, k) > 0,
    decreases cs.len(),
{
    if i < cs.len() - 1 {
        assert(cs.drop_last()[i] == cs[i]);
        lemma_kind_counted(cs.drop_last(), i, k);
    }
}

/// A message that iTIP validation accepts, and that holds no
/// `VAVAILABILITY`, holds components of one type at most (apart from
/// `VTIMEZONE`), the method has a meaning for that type, and every
/// component of it meets every rule of the method's table for it.
pub proof fn lemma_accepted_meets_the_table(m: Method, cs: Seq<Component>, i: int, k: Kind, j: int)
    requires
        itip_check(m, cs) is Ok,
        !has_availability(cs),
        0 <= i < cs.len(),
        kind_of(cs[i]) == Some(k),
        0 <= j < rules(k, m).len(),
    ensures
        kind_present(cs, Kind::Event) + kind_present(cs, Kind::Todo) + kind_present(cs, Kind::Journal)
            + kind_present(cs, Kind::FreeBusy) == 1,
        supported(k, m),
        rule_violation(m, k, cs[i], rules(k, m)[j]) is None,
{
    lemma_kind_counted(cs, i, k);
    assert(kind_check(m, k, cs) is Ok);
    lemma_components_hold(m, k, cs, i);
    lemma_rules_hold(m, k, cs[i], rules(k, m), j);
}

/// A method that isn't one of the 8 RFC 5546 defines never makes iTIP
/// validation refuse a calendar.
pub proof fn lemma_other_methods_pass(method: MethodProperty, cs: Seq<Component>)
    requires
        Method::keyword(method.spec_value().bytes()) is None,
    ensures
        itip_validation(method, cs) is Ok,
{
}

/// A request is sent to attendees, so it names at least one: under a
/// `METHOD` of `REQUEST`, iTIP validation refuses every message (without a
/// `VAVAILABILITY`) that holds a `VEVENT`, `VTODO` or `VFREEBUSY` with no
/// `ATTENDEE` (RFC 5546 §3.2.2, §3.4.2, §3.3.2).
pub proof fn lemma_request_needs_attendee(method: MethodProperty, cs: Seq<Component>, i: int)
    requires
        Method::keyword(method.spec_value().bytes()) == Some(Method::Request),
        !has_availability(cs),
        0 <= i < cs.len(),
        kind_of(cs[i]) == Some(Kind::Event) || kind_of(cs[i]) == Some(Kind::Todo) || kind_of(cs[i]) == Some(Kind::FreeBusy),
        prop_count(cs[i], Prop::Attendee) == 0,
    ensures
        itip_validation(method, cs) is Err,
{
    let k = kind_of(cs[i])->0;
    if itip_check(Method::Request, cs) is Ok {
        assert(rules(k, Method::Request)[0] == Rule::Present(Prop::Attendee));
        lemma_accepted_meets_the_table(Method::Request, cs, i, k, 0);
    }
}

/// A `REQUEST` whose only component is a `VEVENT` without `ATTENDEE` is
/// refused for that very reason: the `ATTENDEE` the request must name is
/// missing.
pub proof fn lemma_request_event_without_attendee(c: Component)
    requires
        kind_of(c) == Some(Kind::Event),
        prop_count(c, Prop::Attendee) == 0,
    ensures
        itip_check(Method::Request, seq![c]) == Err::<(), ItipError>(
            ItipError::MissingProperty { method: Method::Request.token(), component: Kind::Event.token(), property: "ATTENDEE" },
        ),
{
    let cs = seq![c];
    let rs = rules(Kind::Event, Method::Request);
    assert(cs.drop_last() =~= Seq::<Component>::empty());
    assert(cs.last() == c);
    assert(!has_availability(cs)) by {
        if has_availability(cs) {
            let j = choose|j: int| 0 <= j < cs.len() && #[trigger] cs[j] is Availability;
            assert(cs[j] == c);
        }
    }
    assert(kind_count(cs.drop_last(), Kind::Event) == 0);
    assert(kind_count(cs.drop_last(), Kind::Todo) == 0);
    assert(kind_count(cs.drop_last(), Kind::Journal) == 0);
    assert(kind_count(cs.drop_last(), Kind::FreeBusy) == 0);
    assert(kind_count(cs, Kind::Event) == 1);
    assert(kind_count(cs, Kind::Todo) == 0);
    assert(kind_count(cs, Kind::Journal) == 0);
    assert(kind_count(cs, Kind::FreeBusy) == 0);
    assert(rs.take(1).drop_last() =~= Seq::<Rule>::empty());
    assert(rs.take(1).last() == Rule::Present(Prop::Attendee));
    assert(rules_violation(Method::Request, Kind::Event, c, rs.take(1).drop_last()) is None);
    assert(rules_violation(Method::Request, Kind::Event, c, rs.take(1)) is Some);
    lemma_rules_prefix(Method::Request, Kind::Event, c, rs, 1);
    assert(components_violation(Method::Request, Kind::Event, cs.drop_last()) is None);
    assert(components_violation(Method::Request, Kind::Event, cs) == rules_violation(Method::Request, Kind::Event, c, rs));
    assert(rules_violation(Method::Request, Kind::Event, c, rs.take(1)) == rule_violation(
        Method::Request,
        Kind::Event,
        c,
        Rule::Present(Prop::Attendee),
    ));
}

/// The table's rule number `j` for components of kind `k` under `m` holds
/// of every such component of a message that iTIP validation accepts.
proof fn lemma_accepted_meets_rule(m: Method, cs: Seq<Component>, i: int, k: Kind, j: int, r: Rule)
    requires
        itip_check(m, cs) is Ok,
        !has_availability(cs),
        0 <= i < cs.len(),
        kind_of(cs[i]) == Some(k),
        0 <= j < rules(k, m).len(),
        rules(k, m)[j] == r,
    ensures
        rule_violation(m, k, cs[i], r) is None,
{
    lemma_accepted_meets_the_table(m, cs, i, k, j);
}

/// Every scheduling message but a to-do `REFRESH` names its organizer: a
/// message (without `VAVAILABILITY`) that iTIP validation accepts has an
/// `ORGANIZER` in each of its `VEVENT`s, `VTODO`s, `VJOURNAL`s and
/// `VFREEBUSY`s (RFC 5546 §3.2, §3.3, §3.4, §3.5).
pub proof fn lemma_accepted_names_organizer(m: Method, cs: Seq<Component>, i: int)
    requires
        itip_check(m, cs) is Ok,
        !has_availability(cs),
        0 <= i < cs.len(),
        kind_of(cs[i]) is Some,
        !(kind_of(cs[i]) == Some(Kind::Todo) && m is Refresh),
    ensures
        prop_count(cs[i], Prop::Organizer) > 0,
{
    let k = kind_of(cs[i])->0;
    lemma_kind_counted(cs, i, k);
    assert(kind_check(m, k, cs) is Ok);
    let j: int = match (k, m) {
            (Kind::Event, Method::Publish) => 1,
            (Kind::Event, Method::Request) => 2,
            (Kind::Event, Method::Reply) => 1,
            (Kind::Event, Method::Add) => 1,
            (Kind::Event, Method::Cancel) => 0,
            (Kind::Event, Method::Refresh) => 1,
            (Kind::Event, Method::Counter) => 1,
            (Kind::Event, Method::DeclineCounter) => 1,
            (Kind::Todo, Method::Publish) => 1,
            (Kind::Todo, Method::Request) => 2,
            (Kind::Todo, Method::Reply) => 1,
            (Kind::Todo, Method::Add) => 0,
            (Kind::Todo, Method::Cancel) => 0,
            (Kind::Todo, Method::Counter) => 1,
            (Kind::Todo, Method::DeclineCounter) => 1,
            (Kind::Journal, Method::Publish) => 2,
            (Kind::Journal, Method::Add) => 2,
            (Kind::Journal, Method::Cancel) => 0,
            (Kind::FreeBusy, Method::Publish) => 3,
            (Kind::FreeBusy, Method::Request) => 4,
            (Kind::FreeBusy, Method::Reply) => 4,
            _ => 0,
        };
    lemma_accepted_meets_rule(m, cs, i, k, j, Rule::Present(Prop::Organizer));
}

/// A published message goes to no one in particular, so it names no
/// attendee: a `PUBLISH` message (without `VAVAILABILITY`) that iTIP
/// validation accepts has no `ATTENDEE` in any of its `VEVENT`s, `VTODO`s,
/// `VJOURNAL`s or `VFREEBUSY`s (RFC 5546 §3.2.1, §3.3.1, §3.4.1, §3.5.1).
pub proof fn lemma_published_names_no_attendee(cs: Seq<Component>, i: int)
    requires
        itip_check(Method::Publish, cs) is Ok,
        !has_availability(cs),
        0 <= i < cs.len(),
        kind_of(cs[i]) is Some,
    ensures
        prop_count(cs[i], Prop::Attendee) == 0,
{
    let k = kind_of(cs[i])->0;
    let j: int = match k {
            Kind::Event => 3,
            Kind::Todo => 4,
            Kind::Journal => 3,
            Kind::FreeBusy => 5,
        };
    lemma_accepted_meets_rule(Method::Publish, cs, i, k, j, Rule::Absent(Prop::Attendee));
}

/// A reply speaks for one attendee: a `REPLY` message (without
/// `VAVAILABILITY`) that iTIP validation accepts has exactly one
/// `ATTENDEE` in each of its `VEVENT`s, `VTODO`s and `VFREEBUSY`s
/// (RFC 5546 §3.2.3, §3.3.3, §3.4.3).
pub proof fn lemma_reply_names_one_attendee(cs: Seq<Component>, i: int)
    requires
        itip_check(Method::Reply, cs) is Ok,
        !has_availability(cs),
        0 <= i < cs.len(),
        kind_of(cs[i]) == Some(Kind::Event) || kind_of(cs[i]) == Some(Kind::Todo) || kind_of(cs[i]) == Some(Kind::FreeBusy),
    ensures
        prop_count(cs[i], Prop::Attendee) == 1,
{
    let k = kind_of(cs[i])->0;
    let j: int = match k {
            Kind::Event => 0,
            Kind::Todo => 0,
            Kind::FreeBusy => 0,
            _ => 0,
        };
    lemma_accepted_meets_rule(Method::Reply, cs, i, k, j, Rule::ExactlyOne(Prop::Attendee));
}

} // verus!
