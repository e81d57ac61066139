//! iTIP (RFC 5546): the scheduling methods a `METHOD` property can name
//! and the `REQUEST-STATUS` codes.

use vstd::prelude::*;
use vstd::string::StringSliceAdditionalSpecFns;
use crate::bytes::{append_str, eq_str, lemma_ascii_seq_valid, lemma_str_bytes_differ, DOT};
use crate::properties::calendar::Method as MethodProperty;
use crate::values::{decimal, lemma_decimal_digits, write_decimal, Ical};

pub mod rules;

verus! {

/// One of the 8 scheduling methods RFC 5546 defines (§1.4). Only one
/// component type is allowed in a single iTIP message, apart from
/// `VTIMEZONE`.
#[derive(Debug, Clone, Copy, PartialEq, Eq, Structural)]
pub enum Method {

    /// Used to publish an iCalendar object to one or more Calendar Users,
    /// with no interactivity between the publisher and any other Calendar
    /// User (e.g. a baseball team publishing its schedule to the public).
    Publish,

    /// Used to schedule an iCalendar object with other Calendar Users.
    /// Requests are interactive in that they require the receiver to
    /// respond using the reply methods. Also used by the Organizer to
    /// update the status of an iCalendar object.
    Request,

    /// Used in response to a request to convey Attendee status to the
    /// Organizer.
    Reply,

    /// Adds one or more new instances to an existing recurring iCalendar
    /// object.
    Add,

    /// Cancels one or more instances of an existing iCalendar object.
    Cancel,

    /// Used by an Attendee to request the latest version of an iCalendar
    /// object.
    Refresh,

    /// Used by an Attendee to negotiate a change in an iCalendar object
    /// (e.g. proposing a different event time).
    Counter,

    /// Used by the Organizer to decline a proposed counter proposal.
    DeclineCounter,
}

impl Method {
    /// The method's token.
    pub open spec fn name(self) -> Seq<u8> {
        match self {
            Method::Publish => "PUBLISH".spec_bytes(),
            Method::Request => "REQUEST".spec_bytes(),
            Method::Reply => "REPLY".spec_bytes(),
            Method::Add => "ADD".spec_bytes(),
            Method::Cancel => "CANCEL".spec_bytes(),
            Method::Refresh => "REFRESH".spec_bytes(),
            Method::Counter => "COUNTER".spec_bytes(),
            Method::DeclineCounter => "DECLINECOUNTER".spec_bytes(),
        }
    }

    /// The method's token, as an error reports it.
    pub open spec fn token(self) -> &'static str {
        match self {
            Method::Publish => "PUBLISH",
            Method::Request => "REQUEST",
            Method::Reply => "REPLY",
            Method::Add => "ADD",
            Method::Cancel => "CANCEL",
            Method::Refresh => "REFRESH",
            Method::Counter => "COUNTER",
            Method::DeclineCounter => "DECLINECOUNTER",
        }
    }

    /// The method a token names, if it names one of the 8.
    pub open spec fn keyword(v: Seq<u8>) -> Option<Method> {
        if v == "PUBLISH".spec_bytes() {
            Some(Method::Publish)
        } else if v == "REQUEST".spec_bytes() {
            Some(Method::Request)
        } else if v == "REPLY".spec_bytes() {
            Some(Method::Reply)
        } else if v == "ADD".spec_bytes() {
            Some(Method::Add)
        } else if v == "CANCEL".spec_bytes() {
            Some(Method::Cancel)
        } else if v == "REFRESH".spec_bytes() {
            Some(Method::Refresh)
        } else if v == "COUNTER".spec_bytes() {
            Some(Method::Counter)
        } else if v == "DECLINECOUNTER".spec_bytes() {
            Some(Method::DeclineCounter)
        } else {
            None
        }
    }

    /// A keyword is written back as itself: whatever keyword value `v`
    /// reads as is written as `v`.
    pub proof fn lemma_keyword_written(v: Seq<u8>, p: Method)
        requires
            Method::keyword(v) == Some(p),
        ensures
            p.ical() == v,
    {
    }

    /// Recognizes `method`'s value as one of RFC 5546's 8 methods, or
    /// `None` when it names something else (an `iana-token` or `x-name` of
    /// another specification, or not one of these exact tokens).
    pub fn recognized(method: &MethodProperty) -> (r: Option<Method>)
        ensures
            r == Method::keyword(method.spec_value().bytes()),
    {
        let v = method.value().as_str().as_bytes();
        if eq_str(v, "PUBLISH") {
            Some(Method::Publish)
        } else if eq_str(v, "REQUEST") {
            Some(Method::Request)
        } else if eq_str(v, "REPLY") {
            Some(Method::Reply)
        } else if eq_str(v, "ADD") {
            Some(Method::Add)
        } else if eq_str(v, "CANCEL") {
            Some(Method::Cancel)
        } else if eq_str(v, "REFRESH") {
            Some(Method::Refresh)
        } else if eq_str(v, "COUNTER") {
            Some(Method::Counter)
        } else if eq_str(v, "DECLINECOUNTER") {
            Some(Method::DeclineCounter)
        } else {
            None
        }
    }

    /// The method's token.
    pub fn as_str(self) -> (r: &'static str)
        ensures
            r.spec_bytes() == self.name(),
            r == self.token(),
    {
        match self {
            Method::Publish => "PUBLISH",
            Method::Request => "REQUEST",
            Method::Reply => "REPLY",
            Method::Add => "ADD",
            Method::Cancel => "CANCEL",
            Method::Refresh => "REFRESH",
            Method::Counter => "COUNTER",
            Method::DeclineCounter => "DECLINECOUNTER",
        }
    }
}

/// Every method's token is recognized as that method.
pub proof fn lemma_recognizes_its_name(m: Method)
    ensures
        Method::keyword(m.name()) == Some(m),
{
    reveal_strlit("PUBLISH");
    reveal_strlit("REQUEST");
    reveal_strlit("REPLY");
    reveal_strlit("ADD");
    reveal_strlit("CANCEL");
    reveal_strlit("REFRESH");
    reveal_strlit("COUNTER");
    reveal_strlit("DECLINECOUNTER");
    match m {
        Method::Publish => {
        },
        Method::Request => {
            lemma_str_bytes_differ("REQUEST", "PUBLISH", 0);
        },
        Method::Reply => {
            lemma_str_bytes_differ("REPLY", "PUBLISH", 0);
            lemma_str_bytes_differ("REPLY", "REQUEST", 0);
        },
        Method::Add => {
            lemma_str_bytes_differ("ADD", "PUBLISH", 0);
            lemma_str_bytes_differ("ADD", "REQUEST", 0);
            lemma_str_bytes_differ("ADD", "REPLY", 0);
        },
        Method::Cancel => {
            lemma_str_bytes_differ("CANCEL", "PUBLISH", 0);
            lemma_str_bytes_differ("CANCEL", "REQUEST", 0);
            lemma_str_bytes_differ("CANCEL", "REPLY", 0);
            lemma_str_bytes_differ("CANCEL", "ADD", 0);
        },
        Method::Refresh => {
            lemma_str_bytes_differ("REFRESH", "PUBLISH", 0);
            lemma_str_bytes_differ("REFRESH", "REQUEST", 2);
            lemma_str_bytes_differ("REFRESH", "REPLY", 0);
            lemma_str_bytes_differ("REFRESH", "ADD", 0);
            lemma_str_bytes_differ("REFRESH", "CANCEL", 0);
        },
        Method::Counter => {
            lemma_str_bytes_differ("COUNTER", "PUBLISH", 0);
            lemma_str_bytes_differ("COUNTER", "REQUEST", 0);
            lemma_str_bytes_differ("COUNTER", "REPLY", 0);
            lemma_str_bytes_differ("COUNTER", "ADD", 0);
            lemma_str_bytes_differ("COUNTER", "CANCEL", 0);
            lemma_str_bytes_differ("COUNTER", "REFRESH", 0);
        },
        Method::DeclineCounter => {
            lemma_str_bytes_differ("DECLINECOUNTER", "PUBLISH", 0);
            lemma_str_bytes_differ("DECLINECOUNTER", "REQUEST", 0);
            lemma_str_bytes_differ("DECLINECOUNTER", "REPLY", 0);
            lemma_str_bytes_differ("DECLINECOUNTER", "ADD", 0);
            lemma_str_bytes_differ("DECLINECOUNTER", "CANCEL", 0);
            lemma_str_bytes_differ("DECLINECOUNTER", "REFRESH", 0);
            lemma_str_bytes_differ("DECLINECOUNTER", "COUNTER", 0);
        },
    }
}

impl Ical for Method {
    open spec fn ical(&self) -> Seq<u8> {
        self.name()
    }

    proof fn lemma_ical_valid(&self) {
        broadcast use vstd::utf8::encode_utf8_valid_utf8;

    }

    fn write_to(&self, out: &mut Vec<u8>) {
        append_str(out, self.as_str())
    }
}

/// A `REQUEST-STATUS` status code (RFC 5546 §3.6), conveying the outcome
/// of a `REPLY`, `COUNTER` or `DECLINECOUNTER` message. Where none is
/// present, `2.0` (success) is assumed.
#[derive(Debug, Clone, Copy, PartialEq, Eq, Structural)]
pub enum StatusCode {

    /// iTIP operation succeeded.
    Success,

    /// iTIP operation succeeded with fallback on one or more property
    /// values.
    SuccessFallback,

    /// iTIP operation succeeded but a property was ignored.
    SuccessPropertyIgnored,

    /// iTIP operation succeeded but a property parameter was ignored
    /// because it was invalid.
    SuccessParameterIgnored,

    /// iTIP operation succeeded but a non-standard property was ignored
    /// because it was unknown.
    SuccessUnknownPropertyIgnored,

    /// iTIP operation succeeded but a property was ignored because its
    /// non-standard value was unknown.
    SuccessUnknownValueIgnored,

    /// iTIP operation succeeded but an invalid calendar component was
    /// ignored.
    SuccessComponentIgnored,

    /// iTIP operation succeeded; the request was forwarded to the Calendar
    /// User.
    SuccessForwarded,

    /// iTIP operation succeeded; a repeating event was ignored and
    /// scheduled as a single component.
    SuccessRepeatingEventIgnored,

    /// iTIP operation succeeded; the end date-time was truncated to a date
    /// boundary.
    SuccessTruncatedEndDateTime,

    /// iTIP operation succeeded; a repeating `VTODO` was ignored and
    /// scheduled as a single `VTODO`.
    SuccessRepeatingTodoIgnored,

    /// iTIP operation succeeded; an unbounded `RRULE` was clipped at some
    /// finite number of instances.
    SuccessRruleClipped,

    /// Invalid property name.
    InvalidPropertyName,

    /// Invalid property value.
    InvalidPropertyValue,

    /// Invalid property parameter.
    InvalidPropertyParameter,

    /// Invalid property parameter value.
    InvalidPropertyParameterValue,

    /// Invalid calendar component sequence.
    InvalidComponentSequence,

    /// Invalid date or time.
    InvalidDateTime,

    /// Invalid rule.
    InvalidRule,

    /// Invalid Calendar User.
    InvalidCalendarUser,

    /// No authority.
    NoAuthority,

    /// Unsupported version.
    UnsupportedVersion,

    /// Request entity too large.
    RequestEntityTooLarge,

    /// Required component or property missing.
    RequiredComponentOrPropertyMissing,

    /// Unknown component or property found.
    UnknownComponentOrProperty,

    /// Unsupported component or property found.
    UnsupportedComponentOrProperty,

    /// Unsupported capability.
    UnsupportedCapability,

    /// Event conflict; date/time is busy.
    EventConflict,

    /// Request not supported.
    RequestNotSupported,

    /// Service unavailable.
    ServiceUnavailable,

    /// Invalid calendar service.
    InvalidCalendarService,

    /// No scheduling support for user.
    NoSchedulingSupport,
}

impl StatusCode {
    /// The numeric `(major, minor)` pair.
    pub open spec fn spec_code(self) -> (u8, u8) {
        match self {
            StatusCode::Success => (2, 0),
            StatusCode::SuccessFallback => (2, 1),
            StatusCode::SuccessPropertyIgnored => (2, 2),
            StatusCode::SuccessParameterIgnored => (2, 3),
            StatusCode::SuccessUnknownPropertyIgnored => (2, 4),
            StatusCode::SuccessUnknownValueIgnored => (2, 5),
            StatusCode::SuccessComponentIgnored => (2, 6),
            StatusCode::SuccessForwarded => (2, 7),
            StatusCode::SuccessRepeatingEventIgnored => (2, 8),
            StatusCode::SuccessTruncatedEndDateTime => (2, 9),
            StatusCode::SuccessRepeatingTodoIgnored => (2, 10),
            StatusCode::SuccessRruleClipped => (2, 11),
            StatusCode::InvalidPropertyName => (3, 0),
            StatusCode::InvalidPropertyValue => (3, 1),
            StatusCode::InvalidPropertyParameter => (3, 2),
            StatusCode::InvalidPropertyParameterValue => (3, 3),
            StatusCode::InvalidComponentSequence => (3, 4),
            StatusCode::InvalidDateTime => (3, 5),
            StatusCode::InvalidRule => (3, 6),
            StatusCode::InvalidCalendarUser => (3, 7),
            StatusCode::NoAuthority => (3, 8),
            StatusCode::UnsupportedVersion => (3, 9),
            StatusCode::RequestEntityTooLarge => (3, 10),
            StatusCode::RequiredComponentOrPropertyMissing => (3, 11),
            StatusCode::UnknownComponentOrProperty => (3, 12),
            StatusCode::UnsupportedComponentOrProperty => (3, 13),
            StatusCode::UnsupportedCapability => (3, 14),
            StatusCode::EventConflict => (4, 0),
            StatusCode::RequestNotSupported => (5, 0),
            StatusCode::ServiceUnavailable => (5, 1),
            StatusCode::InvalidCalendarService => (5, 2),
            StatusCode::NoSchedulingSupport => (5, 3),
        }
    }

    /// The numeric `(major, minor)` pair this code renders as, e.g. `(2, 0)`
    /// for `2.0`.
    pub fn code(self) -> (r: (u8, u8))
        ensures
            r == self.spec_code(),
    {
        match self {
            StatusCode::Success => (2, 0),
            StatusCode::SuccessFallback => (2, 1),
            StatusCode::SuccessPropertyIgnored => (2, 2),
            StatusCode::SuccessParameterIgnored => (2, 3),
            StatusCode::SuccessUnknownPropertyIgnored => (2, 4),
            StatusCode::SuccessUnknownValueIgnored => (2, 5),
            StatusCode::SuccessComponentIgnored => (2, 6),
            StatusCode::SuccessForwarded => (2, 7),
            StatusCode::SuccessRepeatingEventIgnored => (2, 8),
            StatusCode::SuccessTruncatedEndDateTime => (2, 9),
            StatusCode::SuccessRepeatingTodoIgnored => (2, 10),
            StatusCode::SuccessRruleClipped => (2, 11),
            StatusCode::InvalidPropertyName => (3, 0),
            StatusCode::InvalidPropertyValue => (3, 1),
            StatusCode::InvalidPropertyParameter => (3, 2),
            StatusCode::InvalidPropertyParameterValue => (3, 3),
            StatusCode::InvalidComponentSequence => (3, 4),
            StatusCode::InvalidDateTime => (3, 5),
            StatusCode::InvalidRule => (3, 6),
            StatusCode::InvalidCalendarUser => (3, 7),
            StatusCode::NoAuthority => (3, 8),
            StatusCode::UnsupportedVersion => (3, 9),
            StatusCode::RequestEntityTooLarge => (3, 10),
            StatusCode::RequiredComponentOrPropertyMissing => (3, 11),
            StatusCode::UnknownComponentOrProperty => (3, 12),
            StatusCode::UnsupportedComponentOrProperty => (3, 13),
            StatusCode::UnsupportedCapability => (3, 14),
            StatusCode::EventConflict => (4, 0),
            StatusCode::RequestNotSupported => (5, 0),
            StatusCode::ServiceUnavailable => (5, 1),
            StatusCode::InvalidCalendarService => (5, 2),
            StatusCode::NoSchedulingSupport => (5, 3),
        }
    }

    /// The RFC 5546 §3.6 status description.
    pub open spec fn spec_description(self) -> Seq<char> {
        match self {
            StatusCode::Success => "Success"@,
            StatusCode::SuccessFallback => "Success, but fallback taken on one or more property values"@,
            StatusCode::SuccessPropertyIgnored => "Success; invalid property ignored"@,
            StatusCode::SuccessParameterIgnored => "Success; invalid property parameter ignored"@,
            StatusCode::SuccessUnknownPropertyIgnored => "Success; unknown, non-standard property ignored"@,
            StatusCode::SuccessUnknownValueIgnored => "Success; unknown, non-standard property value ignored"@,
            StatusCode::SuccessComponentIgnored => "Success; invalid calendar component ignored"@,
            StatusCode::SuccessForwarded => "Success; request forwarded to Calendar User"@,
            StatusCode::SuccessRepeatingEventIgnored => "Success; repeating event ignored. Scheduled as a single component"@,
            StatusCode::SuccessTruncatedEndDateTime => "Success; truncated end date time to date boundary"@,
            StatusCode::SuccessRepeatingTodoIgnored => "Success; repeating VTODO ignored. Scheduled as a single VTODO"@,
            StatusCode::SuccessRruleClipped => "Success; unbounded RRULE clipped at some finite number of instances"@,
            StatusCode::InvalidPropertyName => "Invalid property name"@,
            StatusCode::InvalidPropertyValue => "Invalid property value"@,
            StatusCode::InvalidPropertyParameter => "Invalid property parameter"@,
            StatusCode::InvalidPropertyParameterValue => "Invalid property parameter value"@,
            StatusCode::InvalidComponentSequence => "Invalid calendar component sequence"@,
            StatusCode::InvalidDateTime => "Invalid date or time"@,
            StatusCode::InvalidRule => "Invalid rule"@,
            StatusCode::InvalidCalendarUser => "Invalid Calendar User"@,
            StatusCode::NoAuthority => "No authority"@,
            StatusCode::UnsupportedVersion => "Unsupported version"@,
            StatusCode::RequestEntityTooLarge => "Request entity too large"@,
            StatusCode::RequiredComponentOrPropertyMissing => "Required component or property missing"@,
            StatusCode::UnknownComponentOrProperty => "Unknown component or property found"@,
            StatusCode::UnsupportedComponentOrProperty => "Unsupported component or property found"@,
            StatusCode::UnsupportedCapability => "Unsupported capability"@,
            StatusCode::EventConflict => "Event conflict. Date/time is busy"@,
            StatusCode::RequestNotSupported => "Request not supported"@,
            StatusCode::ServiceUnavailable => "Service unavailable"@,
            StatusCode::InvalidCalendarService => "Invalid calendar service"@,
            StatusCode::NoSchedulingSupport => "No scheduling support for user"@,
        }
    }

    /// The RFC 5546 §3.6 status description.
    pub fn description(self) -> (r: &'static str)
        ensures
            r@ == self.spec_description(),
    {
        match self {
            StatusCode::Success => "Success",
            StatusCode::SuccessFallback => "Success, but fallback taken on one or more property values",
            StatusCode::SuccessPropertyIgnored => "Success; invalid property ignored",
            StatusCode::SuccessParameterIgnored => "Success; invalid property parameter ignored",
            StatusCode::SuccessUnknownPropertyIgnored => "Success; unknown, non-standard property ignored",
            StatusCode::SuccessUnknownValueIgnored => "Success; unknown, non-standard property value ignored",
            StatusCode::SuccessComponentIgnored => "Success; invalid calendar component ignored",
            StatusCode::SuccessForwarded => "Success; request forwarded to Calendar User",
            StatusCode::SuccessRepeatingEventIgnored => "Success; repeating event ignored. Scheduled as a single component",
            StatusCode::SuccessTruncatedEndDateTime => "Success; truncated end date time to date boundary",
            StatusCode::SuccessRepeatingTodoIgnored => "Success; repeating VTODO ignored. Scheduled as a single VTODO",
            StatusCode::SuccessRruleClipped => "Success; unbounded RRULE clipped at some finite number of instances",
            StatusCode::InvalidPropertyName => "Invalid property name",
            StatusCode::InvalidPropertyValue => "Invalid property value",
            StatusCode::InvalidPropertyParameter => "Invalid property parameter",
            StatusCode::InvalidPropertyParameterValue => "Invalid property parameter value",
            StatusCode::InvalidComponentSequence => "Invalid calendar component sequence",
            StatusCode::InvalidDateTime => "Invalid date or time",
            StatusCode::InvalidRule => "Invalid rule",
            StatusCode::InvalidCalendarUser => "Invalid Calendar User",
            StatusCode::NoAuthority => "No authority",
            StatusCode::UnsupportedVersion => "Unsupported version",
            StatusCode::RequestEntityTooLarge => "Request entity too large",
            StatusCode::RequiredComponentOrPropertyMissing => "Required component or property missing",
            StatusCode::UnknownComponentOrProperty => "Unknown component or property found",
            StatusCode::UnsupportedComponentOrProperty => "Unsupported component or property found",
            StatusCode::UnsupportedCapability => "Unsupported capability",
            StatusCode::EventConflict => "Event conflict. Date/time is busy",
            StatusCode::RequestNotSupported => "Request not supported",
            StatusCode::ServiceUnavailable => "Service unavailable",
            StatusCode::InvalidCalendarService => "Invalid calendar service",
            StatusCode::NoSchedulingSupport => "No scheduling support for user",
        }
    }
}

/// A status description starts with "Success" exactly when its code is one
/// of the 2.x codes, those of a request that was carried out.
pub proof fn lemma_success_descriptions(c: StatusCode)
    ensures
        (c.spec_description().len() >= 7 && c.spec_description().take(7) == "Success"@) <==> c.spec_code().0 == 2,
{
    reveal_strlit("Success");
    match c {
        StatusCode::Success => {
            reveal_strlit("Success");
            assert(c.spec_description().take(7) =~= "Success"@);
        },
        StatusCode::SuccessFallback => {
            reveal_strlit("Success, but fallback taken on one or more property values");
            assert(c.spec_description().take(7) =~= "Success"@);
        },
        StatusCode::SuccessPropertyIgnored => {
            reveal_strlit("Success; invalid property ignored");
            assert(c.spec_description().take(7) =~= "Success"@);
        },
        StatusCode::SuccessParameterIgnored => {
            reveal_strlit("Success; invalid property parameter ignored");
            assert(c.spec_description().take(7) =~= "Success"@);
        },
        StatusCode::SuccessUnknownPropertyIgnored => {
            reveal_strlit("Success; unknown, non-standard property ignored");
            assert(c.spec_description().take(7) =~= "Success"@);
        },
        StatusCode::SuccessUnknownValueIgnored => {
            reveal_strlit("Success; unknown, non-standard property value ignored");
            assert(c.spec_description().take(7) =~= "Success"@);
        },
        StatusCode::SuccessComponentIgnored => {
            reveal_strlit("Success; invalid calendar component ignored");
            assert(c.spec_description().take(7) =~= "Success"@);
        },
        StatusCode::SuccessForwarded => {
            reveal_strlit("Success; request forwarded to Calendar User");
            assert(c.spec_description().take(7) =~= "Success"@);
        },
        StatusCode::SuccessRepeatingEventIgnored => {
            reveal_strlit("Success; repeating event ignored. Scheduled as a single component");
            assert(c.spec_description().take(7) =~= "Success"@);
        },
        StatusCode::SuccessTruncatedEndDateTime => {
            reveal_strlit("Success; truncated end date time to date boundary");
            assert(c.spec_description().take(7) =~= "Success"@);
        },
        StatusCode::SuccessRepeatingTodoIgnored => {
            reveal_strlit("Success; repeating VTODO ignored. Scheduled as a single VTODO");
            assert(c.spec_description().take(7) =~= "Success"@);
        },
        StatusCode::SuccessRruleClipped => {
            reveal_strlit("Success; unbounded RRULE clipped at some finite number of instances");
            assert(c.spec_description().take(7) =~= "Success"@);
        },
        StatusCode::InvalidPropertyName => {
            reveal_strlit("Invalid property name");
            assert(c.spec_description().take(7)[0] != "Success"@[0]);
        },
        StatusCode::InvalidPropertyValue => {
            reveal_strlit("Invalid property value");
            assert(c.spec_description().take(7)[0] != "Success"@[0]);
        },
        StatusCode::InvalidPropertyParameter => {
            reveal_strlit("Invalid property parameter");
            assert(c.spec_description().take(7)[0] != "Success"@[0]);
        },
        StatusCode::InvalidPropertyParameterValue => {
            reveal_strlit("Invalid property parameter value");
            assert(c.spec_description().take(7)[0] != "Success"@[0]);
        },
        StatusCode::InvalidComponentSequence => {
            reveal_strlit("Invalid calendar component sequence");
            assert(c.spec_description().take(7)[0] != "Success"@[0]);
        },
        StatusCode::InvalidDateTime => {
            reveal_strlit("Invalid date or time");
            assert(c.spec_description().take(7)[0] != "Success"@[0]);
        },
        StatusCode::InvalidRule => {
            reveal_strlit("Invalid rule");
            assert(c.spec_description().take(7)[0] != "Success"@[0]);
        },
        StatusCode::InvalidCalendarUser => {
            reveal_strlit("Invalid Calendar User");
            assert(c.spec_description().take(7)[0] != "Success"@[0]);
        },
        StatusCode::NoAuthority => {
            reveal_strlit("No authority");
            assert(c.spec_description().take(7)[0] != "Success"@[0]);
        },
        StatusCode::UnsupportedVersion => {
            reveal_strlit("Unsupported version");
            assert(c.spec_description().take(7)[0] != "Success"@[0]);
        },
        StatusCode::RequestEntityTooLarge => {
            reveal_strlit("Request entity too large");
            assert(c.spec_description().take(7)[0] != "Success"@[0]);
        },
        StatusCode::RequiredComponentOrPropertyMissing => {
            reveal_strlit("Required component or property missing");
            assert(c.spec_description().take(7)[0] != "Success"@[0]);
        },
        StatusCode::UnknownComponentOrProperty => {
            reveal_strlit("Unknown component or property found");
            assert(c.spec_description().take(7)[0] != "Success"@[0]);
        },
        StatusCode::UnsupportedComponentOrProperty => {
            reveal_strlit("Unsupported component or property found");
            assert(c.spec_description().take(7)[0] != "Success"@[0]);
        },
        StatusCode::UnsupportedCapability => {
            reveal_strlit("Unsupported capability");
            assert(c.spec_description().take(7)[0] != "Success"@[0]);
        },
        StatusCode::EventConflict => {
            reveal_strlit("Event conflict. Date/time is busy");
            assert(c.spec_description().take(7)[0] != "Success"@[0]);
        },
        StatusCode::RequestNotSupported => {
            reveal_strlit("Request not supported");
            assert(c.spec_description().take(7)[0] != "Success"@[0]);
        },
        StatusCode::ServiceUnavailable => {
            reveal_strlit("Service unavailable");
            assert(c.spec_description().take(7)[1] != "Success"@[1]);
        },
        StatusCode::InvalidCalendarService => {
            reveal_strlit("Invalid calendar service");
            assert(c.spec_description().take(7)[0] != "Success"@[0]);
        },
        StatusCode::NoSchedulingSupport => {
            reveal_strlit("No scheduling support for user");
            assert(c.spec_description().take(7)[0] != "Success"@[0]);
        },
    }
}

/// No two codes share a numeric pair.
pub proof fn lemma_codes_distinct(a: StatusCode, b: StatusCode)
    ensures
        a.spec_code() == b.spec_code() ==> a == b,
{
}

impl Ical for StatusCode {
    /// Written `major.minor`.
    open spec fn ical(&self) -> Seq<u8> {
        decimal(self.spec_code().0 as nat) + seq![DOT] + decimal(self.spec_code().1 as nat)
    }

    proof fn lemma_ical_valid(&self) {
        lemma_decimal_digits(self.spec_code().0 as nat);
        lemma_decimal_digits(self.spec_code().1 as nat);
        lemma_ascii_seq_valid(self.ical());
    }

    fn write_to(&self, out: &mut Vec<u8>) {
        let (major, minor) = self.code();
        write_decimal(major as u64, out);
        out.push(DOT);
        write_decimal(minor as u64, out);
        assert(out@ =~= old(out)@ + self.ical());
    }
}

/// An RFC 5546 constraint was violated by a `VCALENDAR` whose `METHOD`
/// names one of the 8 recognized iTIP methods ([`Method::recognized`]).
///
/// This only covers restrictions checkable from a single iCalendar object
/// — see this module's doc for why some of RFC 5546's rules (anything
/// requiring comparison against an earlier message) aren't checked here at
/// all.
#[derive(Debug, Clone, Copy, PartialEq, Eq)]
pub enum ItipError {
    /// A property RFC 5546 requires for this `METHOD` wasn't present.
    MissingProperty {
        /// The iTIP method in effect.
        method: &'static str,
        /// The component the property is missing from.
        component: &'static str,
        /// The missing property's name.
        property: &'static str,
    },

    /// A property RFC 5546 prohibits for this `METHOD` was present.
    ProhibitedProperty {
        /// The iTIP method in effect.
        method: &'static str,
        /// The component the property was found on.
        component: &'static str,
        /// The prohibited property's name.
        property: &'static str,
    },

    /// A property's cardinality didn't match what RFC 5546 requires for
    /// this `METHOD` (e.g. `ATTENDEE` MUST occur exactly once on a
    /// `REPLY`).
    WrongCardinality {
        /// The iTIP method in effect.
        method: &'static str,
        /// The component the property is on.
        component: &'static str,
        /// The property whose count is wrong.
        property: &'static str,
        /// A human-readable description of the required count.
        expected: &'static str,
    },

    /// The number of primary components (`VEVENT`/`VTODO`/`VJOURNAL`/
    /// `VFREEBUSY`) didn't match what RFC 5546 requires for this `METHOD`
    /// (e.g. exactly one `VEVENT` for `ADD`, but one or more for
    /// `REQUEST`).
    ComponentCount {
        /// The iTIP method in effect.
        method: &'static str,
        /// The component type being counted.
        component: &'static str,
        /// A human-readable description of the required count.
        expected: &'static str,
    },

    /// `SEQUENCE` was present but not greater than 0, where RFC 5546
    /// requires it to be (`ADD`).
    SequenceMustBePositive {
        /// The iTIP method in effect.
        method: &'static str,
        /// The component whose `SEQUENCE` must be positive.
        component: &'static str,
    },

    /// `STATUS`'s value wasn't among the values RFC 5546 allows for this
    /// `METHOD`.
    InvalidStatus {
        /// The iTIP method in effect.
        method: &'static str,
        /// The component whose `STATUS` is invalid.
        component: &'static str,
        /// A human-readable description of the allowed values.
        allowed: &'static str,
    },

    /// This `METHOD` has no semantics defined for this component type
    /// (e.g. `REFRESH` is only defined for `VEVENT`/`VTODO`, not
    /// `VJOURNAL`).
    UnsupportedMethod {
        /// The iTIP method in effect.
        method: &'static str,
        /// The component type the method doesn't apply to.
        component: &'static str,
    },

    /// A `VCALENDAR` mixed components of more than one primary type under
    /// one `METHOD` — apart from `VTIMEZONE`, iTIP restricts a message to
    /// a single component type (RFC 5546 §1.4).
    MixedComponentTypes(&'static str),

    /// Several components sharing one scheduling operation didn't all
    /// carry the same `UID`, where RFC 5546 requires them to (e.g. the
    /// several `VEVENT`s of a `REQUEST` describing one recurring series).
    InconsistentUid {
        /// The iTIP method in effect.
        method: &'static str,
        /// The component type that must share a `UID`.
        component: &'static str,
    },
}


} // verus!
