//! One content line read as the property its name calls for.

use vstd::prelude::*;
use vstd::string::StringSliceAdditionalSpecFns;
use vstd::utf8::valid_utf8;
use crate::bytes::{eq_str, first_unquoted, has_x_prefix, param_pieces, x_prefixed, COLON};
use crate::properties::{kept, Iana, ParseError, Xprop};
use crate::values::unescape_text;
use crate::properties::calendar::{CalendarScale, Method, ProductIdentifier, Version};
use crate::properties::component::alarm_ext::{Acknowledged, Proximity};
use crate::properties::component::alarms::{Action, Repeat, Trigger};
use crate::properties::component::availability::{BusyType};
use crate::properties::component::change::{DateTimeCreated, DateTimeStamp, LastModified, Sequence};
use crate::properties::component::datetime::{Completed, DateTimeDue, DateTimeEnd, DateTimeStart, Duration, FreeBusyTime, TimeTransparency};
use crate::properties::component::descriptive::{Attachment, Categories, Classification, Color, Comment, Conference, Description, Geo, Image, Location, PercentComplete, Priority, RefreshInterval, Resources, Source, Status, Summary};
use crate::properties::component::location::{LocationType, Name};
use crate::properties::component::misc::{RequestStatus};
use crate::properties::component::recurrence::{ExceptionDateTimes, RRule, RecurrenceDateTimes};
use crate::properties::component::relationship::{Attendee, Contact, Organizer, RecurrenceId, RelatedTo, Uid, UniformResourceLocator};
use crate::properties::component::timezone::{TimeZoneIdentifier, TimeZoneName, TimeZoneOffsetFrom, TimeZoneOffsetTo, TimeZoneUrl};

verus! {

/// A property of any kind this crate models, or an `X-`/IANA property kept
/// whole.
#[derive(Debug)]
pub enum Property {
    /// `ACKNOWLEDGED`.
    Acknowledged(Acknowledged),
    /// `ACTION`.
    Action(Action),
    /// `ATTACH`.
    Attachment(Attachment),
    /// `ATTENDEE`.
    Attendee(Attendee),
    /// `BUSYTYPE`.
    BusyType(BusyType),
    /// `CALSCALE`.
    CalendarScale(CalendarScale),
    /// `CATEGORIES`.
    Categories(Categories),
    /// `CLASS`.
    Classification(Classification),
    /// `COLOR`.
    Color(Color),
    /// `COMMENT`.
    Comment(Comment),
    /// `COMPLETED`.
    Completed(Completed),
    /// `CONFERENCE`.
    Conference(Conference),
    /// `CONTACT`.
    Contact(Contact),
    /// `CREATED`.
    DateTimeCreated(DateTimeCreated),
    /// `DUE`.
    DateTimeDue(DateTimeDue),
    /// `DTEND`.
    DateTimeEnd(DateTimeEnd),
    /// `DTSTAMP`.
    DateTimeStamp(DateTimeStamp),
    /// `DTSTART`.
    DateTimeStart(DateTimeStart),
    /// `DESCRIPTION`.
    Description(Description),
    /// `DURATION`.
    Duration(Duration),
    /// `EXDATE`.
    ExceptionDateTimes(ExceptionDateTimes),
    /// `FREEBUSY`.
    FreeBusyTime(FreeBusyTime),
    /// `GEO`.
    Geo(Geo),
    /// `IMAGE`.
    Image(Image),
    /// `LAST-MODIFIED`.
    LastModified(LastModified),
    /// `LOCATION`.
    Location(Location),
    /// `LOCATION-TYPE`.
    LocationType(LocationType),
    /// `METHOD`.
    Method(Method),
    /// `NAME`.
    Name(Name),
    /// `ORGANIZER`.
    Organizer(Organizer),
    /// `PERCENT-COMPLETE`.
    PercentComplete(PercentComplete),
    /// `PRIORITY`.
    Priority(Priority),
    /// `PRODID`.
    ProductIdentifier(ProductIdentifier),
    /// `PROXIMITY`.
    Proximity(Proximity),
    /// `RRULE`.
    RRule(RRule),
    /// `RDATE`.
    RecurrenceDateTimes(RecurrenceDateTimes),
    /// `RECURRENCE-ID`.
    RecurrenceId(RecurrenceId),
    /// `REFRESH-INTERVAL`.
    RefreshInterval(RefreshInterval),
    /// `RELATED-TO`.
    RelatedTo(RelatedTo),
    /// `REPEAT`.
    Repeat(Repeat),
    /// `REQUEST-STATUS`.
    RequestStatus(RequestStatus),
    /// `RESOURCES`.
    Resources(Resources),
    /// `SEQUENCE`.
    Sequence(Sequence),
    /// `SOURCE`.
    Source(Source),
    /// `STATUS`.
    Status(Status),
    /// `SUMMARY`.
    Summary(Summary),
    /// `TRANSP`.
    TimeTransparency(TimeTransparency),
    /// `TZID`.
    TimeZoneIdentifier(TimeZoneIdentifier),
    /// `TZNAME`.
    TimeZoneName(TimeZoneName),
    /// `TZOFFSETFROM`.
    TimeZoneOffsetFrom(TimeZoneOffsetFrom),
    /// `TZOFFSETTO`.
    TimeZoneOffsetTo(TimeZoneOffsetTo),
    /// `TZURL`.
    TimeZoneUrl(TimeZoneUrl),
    /// `TRIGGER`.
    Trigger(Trigger),
    /// `UID`.
    Uid(Uid),
    /// `URL`.
    UniformResourceLocator(UniformResourceLocator),
    /// `VERSION`.
    Version(Version),
    /// A non-standard (`X-`) property.
    Xprop(Xprop),
    /// Any other property.
    Iana(Iana),
}

/// Whether the rest of a line parses as a property kept whole.
pub open spec fn other_parses(name: Seq<u8>, rest: Seq<u8>) -> bool {
    match first_unquoted(rest, COLON) {
        Some(k) => kept(param_pieces(rest.take(k))) is Some && valid_utf8(unescape_text(rest.skip(k + 1)))
            && valid_utf8(unescape_text(name)),
        None => false,
    }
}

/// Whether `x` is the `X-` property a line named `name` reads as.
pub open spec fn xprop_reads(x: Xprop, name: Seq<u8>, rest: Seq<u8>) -> bool {
    match first_unquoted(rest, COLON) {
        Some(k) => match kept(param_pieces(rest.take(k))) {
            Some((iana, xname)) => {
                &&& x.spec_params().iana_bytes() == iana
                &&& x.spec_params().xname_bytes() == xname
                &&& x.spec_value().bytes() == unescape_text(rest.skip(k + 1))
                &&& x.spec_name().bytes() == unescape_text(name)
            },
            None => false,
        },
        None => false,
    }
}

/// Whether `x` is the IANA property a line named `name` reads as.
pub open spec fn iana_reads(x: Iana, name: Seq<u8>, rest: Seq<u8>) -> bool {
    match first_unquoted(rest, COLON) {
        Some(k) => match kept(param_pieces(rest.take(k))) {
            Some((iana, xname)) => {
                &&& x.spec_params().iana_bytes() == iana
                &&& x.spec_params().xname_bytes() == xname
                &&& x.spec_value().bytes() == unescape_text(rest.skip(k + 1))
                &&& x.spec_name().bytes() == unescape_text(name)
            },
            None => false,
        },
        None => false,
    }
}

impl Property {
    /// Whether a content line with the (upper-cased) name `name` and the
    /// rest `rest` parses as the property its name calls for.
    #[verifier::opaque]
    pub open spec fn parses(name: Seq<u8>, rest: Seq<u8>) -> bool {
        if name == "ACKNOWLEDGED".spec_bytes() {
            Acknowledged::parses(rest)
        } else if name == "ACTION".spec_bytes() {
            Action::parses(rest)
        } else if name == "ATTACH".spec_bytes() {
            Attachment::parses(rest)
        } else if name == "ATTENDEE".spec_bytes() {
            Attendee::parses(rest)
        } else if name == "BUSYTYPE".spec_bytes() {
            BusyType::parses(rest)
        } else if name == "CALSCALE".spec_bytes() {
            CalendarScale::parses(rest)
        } else if name == "CATEGORIES".spec_bytes() {
            Categories::parses(rest)
        } else if name == "CLASS".spec_bytes() {
            Classification::parses(rest)
        } else if name == "COLOR".spec_bytes() {
            Color::parses(rest)
        } else if name == "COMMENT".spec_bytes() {
            Comment::parses(rest)
        } else if name == "COMPLETED".spec_bytes() {
            Completed::parses(rest)
        } else if name == "CONFERENCE".spec_bytes() {
            Conference::parses(rest)
        } else if name == "CONTACT".spec_bytes() {
            Contact::parses(rest)
        } else if name == "CREATED".spec_bytes() {
            DateTimeCreated::parses(rest)
        } else if name == "DUE".spec_bytes() {
            DateTimeDue::parses(rest)
        } else if name == "DTEND".spec_bytes() {
            DateTimeEnd::parses(rest)
        } else if name == "DTSTAMP".spec_bytes() {
            DateTimeStamp::parses(rest)
        } else if name == "DTSTART".spec_bytes() {
            DateTimeStart::parses(rest)
        } else if name == "DESCRIPTION".spec_bytes() {
            Description::parses(rest)
        } else if name == "DURATION".spec_bytes() {
            Duration::parses(rest)
        } else if name == "EXDATE".spec_bytes() {
            ExceptionDateTimes::parses(rest)
        } else if name == "FREEBUSY".spec_bytes() {
            FreeBusyTime::parses(rest)
        } else if name == "GEO".spec_bytes() {
            Geo::parses(rest)
        } else if name == "IMAGE".spec_bytes() {
            Image::parses(rest)
        } else if name == "LAST-MODIFIED".spec_bytes() {
            LastModified::parses(rest)
        } else if name == "LOCATION".spec_bytes() {
            Location::parses(rest)
        } else if name == "LOCATION-TYPE".spec_bytes() {
            LocationType::parses(rest)
        } else if name == "METHOD".spec_bytes() {
            Method::parses(rest)
        } else if name == "NAME".spec_bytes() {
            Name::parses(rest)
        } else if name == "ORGANIZER".spec_bytes() {
            Organizer::parses(rest)
        } else if name == "PERCENT-COMPLETE".spec_bytes() {
            PercentComplete::parses(rest)
        } else if name == "PRIORITY".spec_bytes() {
            Priority::parses(rest)
        } else if name == "PRODID".spec_bytes() {
            ProductIdentifier::parses(rest)
        } else if name == "PROXIMITY".spec_bytes() {
            Proximity::parses(rest)
        } else if name == "RRULE".spec_bytes() {
            RRule::parses(rest)
        } else if name == "RDATE".spec_bytes() {
            RecurrenceDateTimes::parses(rest)
        } else if name == "RECURRENCE-ID".spec_bytes() {
            RecurrenceId::parses(rest)
        } else if name == "REFRESH-INTERVAL".spec_bytes() {
            RefreshInterval::parses(rest)
        } else if name == "RELATED-TO".spec_bytes() {
            RelatedTo::parses(rest)
        } else if name == "REPEAT".spec_bytes() {
            Repeat::parses(rest)
        } else if name == "REQUEST-STATUS".spec_bytes() {
            RequestStatus::parses(rest)
        } else if name == "RESOURCES".spec_bytes() {
            Resources::parses(rest)
        } else if name == "SEQUENCE".spec_bytes() {
            Sequence::parses(rest)
        } else if name == "SOURCE".spec_bytes() {
            Source::parses(rest)
        } else if name == "STATUS".spec_bytes() {
            Status::parses(rest)
        } else if name == "SUMMARY".spec_bytes() {
            Summary::parses(rest)
        } else if name == "TRANSP".spec_bytes() {
            TimeTransparency::parses(rest)
        } else if name == "TZID".spec_bytes() {
            TimeZoneIdentifier::parses(rest)
        } else if name == "TZNAME".spec_bytes() {
            TimeZoneName::parses(rest)
        } else if name == "TZOFFSETFROM".spec_bytes() {
            TimeZoneOffsetFrom::parses(rest)
        } else if name == "TZOFFSETTO".spec_bytes() {
            TimeZoneOffsetTo::parses(rest)
        } else if name == "TZURL".spec_bytes() {
            TimeZoneUrl::parses(rest)
        } else if name == "TRIGGER".spec_bytes() {
            Trigger::parses(rest)
        } else if name == "UID".spec_bytes() {
            Uid::parses(rest)
        } else if name == "URL".spec_bytes() {
            UniformResourceLocator::parses(rest)
        } else if name == "VERSION".spec_bytes() {
            Version::parses(rest)
        } else {
            other_parses(name, rest)
        }
    }

    /// Whether this is what a content line with the name `name` and the
    /// rest `rest` parses to.
    #[verifier::opaque]
    pub open spec fn reads(self, name: Seq<u8>, rest: Seq<u8>) -> bool {
        if name == "ACKNOWLEDGED".spec_bytes() {
            self matches Property::Acknowledged(x) && x.describes(rest)
        } else if name == "ACTION".spec_bytes() {
            self matches Property::Action(x) && x.describes(rest)
        } else if name == "ATTACH".spec_bytes() {
            self matches Property::Attachment(x) && x.describes(rest)
        } else if name == "ATTENDEE".spec_bytes() {
            self matches Property::Attendee(x) && x.describes(rest)
        } else if name == "BUSYTYPE".spec_bytes() {
            self matches Property::BusyType(x) && x.describes(rest)
        } else if name == "CALSCALE".spec_bytes() {
            self matches Property::CalendarScale(x) && x.describes(rest)
        } else if name == "CATEGORIES".spec_bytes() {
            self matches Property::Categories(x) && x.describes(rest)
        } else if name == "CLASS".spec_bytes() {
            self matches Property::Classification(x) && x.describes(rest)
        } else if name == "COLOR".spec_bytes() {
            self matches Property::Color(x) && x.describes(rest)
        } else if name == "COMMENT".spec_bytes() {
            self matches Property::Comment(x) && x.describes(rest)
        } else if name == "COMPLETED".spec_bytes() {
            self matches Property::Completed(x) && x.describes(rest)
        } else if name == "CONFERENCE".spec_bytes() {
            self matches Property::Conference(x) && x.describes(rest)
        } else if name == "CONTACT".spec_bytes() {
            self matches Property::Contact(x) && x.describes(rest)
        } else if name == "CREATED".spec_bytes() {
            self matches Property::DateTimeCreated(x) && x.describes(rest)
        } else if name == "DUE".spec_bytes() {
            self matches Property::DateTimeDue(x) && x.describes(rest)
        } else if name == "DTEND".spec_bytes() {
            self matches Property::DateTimeEnd(x) && x.describes(rest)
        } else if name == "DTSTAMP".spec_bytes() {
            self matches Property::DateTimeStamp(x) && x.describes(rest)
        } else if name == "DTSTART".spec_bytes() {
            self matches Property::DateTimeStart(x) && x.describes(rest)
        } else if name == "DESCRIPTION".spec_bytes() {
            self matches Property::Description(x) && x.describes(rest)
        } else if name == "DURATION".spec_bytes() {
            self matches Property::Duration(x) && x.describes(rest)
        } else if name == "EXDATE".spec_bytes() {
            self matches Property::ExceptionDateTimes(x) && x.describes(rest)
        } else if name == "FREEBUSY".spec_bytes() {
            self matches Property::FreeBusyTime(x) && x.describes(rest)
        } else if name == "GEO".spec_bytes() {
            self matches Property::Geo(x) && x.describes(rest)
        } else if name == "IMAGE".spec_bytes() {
            self matches Property::Image(x) && x.describes(rest)
        } else if name == "LAST-MODIFIED".spec_bytes() {
            self matches Property::LastModified(x) && x.describes(rest)
        } else if name == "LOCATION".spec_bytes() {
            self matches Property::Location(x) && x.describes(rest)
        } else if name == "LOCATION-TYPE".spec_bytes() {
            self matches Property::LocationType(x) && x.describes(rest)
        } else if name == "METHOD".spec_bytes() {
            self matches Property::Method(x) && x.describes(rest)
        } else if name == "NAME".spec_bytes() {
            self matches Property::Name(x) && x.describes(rest)
        } else if name == "ORGANIZER".spec_bytes() {
            self matches Property::Organizer(x) && x.describes(rest)
        } else if name == "PERCENT-COMPLETE".spec_bytes() {
            self matches Property::PercentComplete(x) && x.describes(rest)
        } else if name == "PRIORITY".spec_bytes() {
            self matches Property::Priority(x) && x.describes(rest)
        } else if name == "PRODID".spec_bytes() {
            self matches Property::ProductIdentifier(x) && x.describes(rest)
        } else if name == "PROXIMITY".spec_bytes() {
            self matches Property::Proximity(x) && x.describes(rest)
        } else if name == "RRULE".spec_bytes() {
            self matches Property::RRule(x) && x.describes(rest)
        } else if name == "RDATE".spec_bytes() {
            self matches Property::RecurrenceDateTimes(x) && x.describes(rest)
        } else if name == "RECURRENCE-ID".spec_bytes() {
            self matches Property::RecurrenceId(x) && x.describes(rest)
        } else if name == "REFRESH-INTERVAL".spec_bytes() {
            self matches Property::RefreshInterval(x) && x.describes(rest)
        } else if name == "RELATED-TO".spec_bytes() {
            self matches Property::RelatedTo(x) && x.describes(rest)
        } else if name == "REPEAT".spec_bytes() {
            self matches Property::Repeat(x) && x.describes(rest)
        } else if name == "REQUEST-STATUS".spec_bytes() {
            self matches Property::RequestStatus(x) && x.describes(rest)
        } else if name == "RESOURCES".spec_bytes() {
            self matches Property::Resources(x) && x.describes(rest)
        } else if name == "SEQUENCE".spec_bytes() {
            self matches Property::Sequence(x) && x.describes(rest)
        } else if name == "SOURCE".spec_bytes() {
            self matches Property::Source(x) && x.describes(rest)
        } else if name == "STATUS".spec_bytes() {
            self matches Property::Status(x) && x.describes(rest)
        } else if name == "SUMMARY".spec_bytes() {
            self matches Property::Summary(x) && x.describes(rest)
        } else if name == "TRANSP".spec_bytes() {
            self matches Property::TimeTransparency(x) && x.describes(rest)
        } else if name == "TZID".spec_bytes() {
            self matches Property::TimeZoneIdentifier(x) && x.describes(rest)
        } else if name == "TZNAME".spec_bytes() {
            self matches Property::TimeZoneName(x) && x.describes(rest)
        } else if name == "TZOFFSETFROM".spec_bytes() {
            self matches Property::TimeZoneOffsetFrom(x) && x.describes(rest)
        } else if name == "TZOFFSETTO".spec_bytes() {
            self matches Property::TimeZoneOffsetTo(x) && x.describes(rest)
        } else if name == "TZURL".spec_bytes() {
            self matches Property::TimeZoneUrl(x) && x.describes(rest)
        } else if name == "TRIGGER".spec_bytes() {
            self matches Property::Trigger(x) && x.describes(rest)
        } else if name == "UID".spec_bytes() {
            self matches Property::Uid(x) && x.describes(rest)
        } else if name == "URL".spec_bytes() {
            self matches Property::UniformResourceLocator(x) && x.describes(rest)
        } else if name == "VERSION".spec_bytes() {
            self matches Property::Version(x) && x.describes(rest)
        } else if has_x_prefix(name) {
            self matches Property::Xprop(x) && xprop_reads(x, name, rest)
        } else {
            self matches Property::Iana(x) && iana_reads(x, name, rest)
        }
    }

    /// Parses a content line with the (upper-cased) name `name` and the
    /// rest `rest` as the property the name calls for; a name this crate
    /// doesn't model gives an `X-` or IANA property kept whole.
    pub fn parse(name: &[u8], rest: &[u8]) -> (r: Result<Property, ParseError>)
        ensures
            r is Ok <==> Property::parses(name@, rest@),
            r matches Ok(p) ==> p.reads(name@, rest@),
    {
        reveal(Property::parses);
        reveal(Property::reads);
        if eq_str(name, "ACKNOWLEDGED") {
            return match Acknowledged::try_from(rest) {
                Ok(x) => Ok(Property::Acknowledged(x)),
                Err(e) => Err(e),
            };
        }
        if eq_str(name, "ACTION") {
            return match Action::try_from(rest) {
                Ok(x) => Ok(Property::Action(x)),
                Err(e) => Err(e),
            };
        }
        if eq_str(name, "ATTACH") {
            return match Attachment::try_from(rest) {
                Ok(x) => Ok(Property::Attachment(x)),
                Err(e) => Err(e),
            };
        }
        if eq_str(name, "ATTENDEE") {
            return match Attendee::try_from(rest) {
                Ok(x) => Ok(Property::Attendee(x)),
                Err(e) => Err(e),
            };
        }
        if eq_str(name, "BUSYTYPE") {
            return match BusyType::try_from(rest) {
                Ok(x) => Ok(Property::BusyType(x)),
                Err(e) => Err(e),
            };
        }
        if eq_str(name, "CALSCALE") {
            return match CalendarScale::try_from(rest) {
                Ok(x) => Ok(Property::CalendarScale(x)),
                Err(e) => Err(e),
            };
        }
        if eq_str(name, "CATEGORIES") {
            return match Categories::try_from(rest) {
                Ok(x) => Ok(Property::Categories(x)),
                Err(e) => Err(e),
            };
        }
        if eq_str(name, "CLASS") {
            return match Classification::try_from(rest) {
                Ok(x) => Ok(Property::Classification(x)),
                Err(e) => Err(e),
            };
        }
        if eq_str(name, "COLOR") {
            return match Color::try_from(rest) {
                Ok(x) => Ok(Property::Color(x)),
                Err(e) => Err(e),
            };
        }
        if eq_str(name, "COMMENT") {
            return match Comment::try_from(rest) {
                Ok(x) => Ok(Property::Comment(x)),
                Err(e) => Err(e),
            };
        }
        if eq_str(name, "COMPLETED") {
            return match Completed::try_from(rest) {
                Ok(x) => Ok(Property::Completed(x)),
                Err(e) => Err(e),
            };
        }
        if eq_str(name, "CONFERENCE") {
            return match Conference::try_from(rest) {
                Ok(x) => Ok(Property::Conference(x)),
                Err(e) => Err(e),
            };
        }
        if eq_str(name, "CONTACT") {
            return match Contact::try_from(rest) {
                Ok(x) => Ok(Property::Contact(x)),
                Err(e) => Err(e),
            };
        }
        if eq_str(name, "CREATED") {
            return match DateTimeCreated::try_from(rest) {
                Ok(x) => Ok(Property::DateTimeCreated(x)),
                Err(e) => Err(e),
            };
        }
        if eq_str(name, "DUE") {
            return match DateTimeDue::try_from(rest) {
                Ok(x) => Ok(Property::DateTimeDue(x)),
                Err(e) => Err(e),
            };
        }
        if eq_str(name, "DTEND") {
            return match DateTimeEnd::try_from(rest) {
                Ok(x) => Ok(Property::DateTimeEnd(x)),
                Err(e) => Err(e),
            };
        }
        if eq_str(name, "DTSTAMP") {
            return match DateTimeStamp::try_from(rest) {
                Ok(x) => Ok(Property::DateTimeStamp(x)),
                Err(e) => Err(e),
            };
        }
        if eq_str(name, "DTSTART") {
            return match DateTimeStart::try_from(rest) {
                Ok(x) => Ok(Property::DateTimeStart(x)),
                Err(e) => Err(e),
            };
        }
        if eq_str(name, "DESCRIPTION") {
            return match Description::try_from(rest) {
                Ok(x) => Ok(Property::Description(x)),
                Err(e) => Err(e),
            };
        }
        if eq_str(name, "DURATION") {
            return match Duration::try_from(rest) {
                Ok(x) => Ok(Property::Duration(x)),
                Err(e) => Err(e),
            };
        }
        if eq_str(name, "EXDATE") {
            return match ExceptionDateTimes::try_from(rest) {
                Ok(x) => Ok(Property::ExceptionDateTimes(x)),
                Err(e) => Err(e),
            };
        }
        if eq_str(name, "FREEBUSY") {
            return match FreeBusyTime::try_from(rest) {
                Ok(x) => Ok(Property::FreeBusyTime(x)),
                Err(e) => Err(e),
            };
        }
        if eq_str(name, "GEO") {
            return match Geo::try_from(rest) {
                Ok(x) => Ok(Property::Geo(x)),
                Err(e) => Err(e),
            };
        }
        if eq_str(name, "IMAGE") {
            return match Image::try_from(rest) {
                Ok(x) => Ok(Property::Image(x)),
                Err(e) => Err(e),
            };
        }
        if eq_str(name, "LAST-MODIFIED") {
            return match LastModified::try_from(rest) {
                Ok(x) => Ok(Property::LastModified(x)),
                Err(e) => Err(e),
            };
        }
        if eq_str(name, "LOCATION") {
            return match Location::try_from(rest) {
                Ok(x) => Ok(Property::Location(x)),
                Err(e) => Err(e),
            };
        }
        if eq_str(name, "LOCATION-TYPE") {
            return match LocationType::try_from(rest) {
                Ok(x) => Ok(Property::LocationType(x)),
                Err(e) => Err(e),
            };
        }
        if eq_str(name, "METHOD") {
            return match Method::try_from(rest) {
                Ok(x) => Ok(Property::Method(x)),
                Err(e) => Err(e),
            };
        }
        if eq_str(name, "NAME") {
            return match Name::try_from(rest) {
                Ok(x) => Ok(Property::Name(x)),
                Err(e) => Err(e),
            };
        }
        if eq_str(name, "ORGANIZER") {
            return match Organizer::try_from(rest) {
                Ok(x) => Ok(Property::Organizer(x)),
                Err(e) => Err(e),
            };
        }
        if eq_str(name, "PERCENT-COMPLETE") {
            return match PercentComplete::try_from(rest) {
                Ok(x) => Ok(Property::PercentComplete(x)),
                Err(e) => Err(e),
            };
        }
        if eq_str(name, "PRIORITY") {
            return match Priority::try_from(rest) {
                Ok(x) => Ok(Property::Priority(x)),
                Err(e) => Err(e),
            };
        }
        if eq_str(name, "PRODID") {
            return match ProductIdentifier::try_from(rest) {
                Ok(x) => Ok(Property::ProductIdentifier(x)),
                Err(e) => Err(e),
            };
        }
        if eq_str(name, "PROXIMITY") {
            return match Proximity::try_from(rest) {
                Ok(x) => Ok(Property::Proximity(x)),
                Err(e) => Err(e),
            };
        }
        if eq_str(name, "RRULE") {
            return match RRule::try_from(rest) {
                Ok(x) => Ok(Property::RRule(x)),
                Err(e) => Err(e),
            };
        }
        if eq_str(name, "RDATE") {
            return match RecurrenceDateTimes::try_from(rest) {
                Ok(x) => Ok(Property::RecurrenceDateTimes(x)),
                Err(e) => Err(e),
            };
        }
        if eq_str(name, "RECURRENCE-ID") {
            return match RecurrenceId::try_from(rest) {
                Ok(x) => Ok(Property::RecurrenceId(x)),
                Err(e) => Err(e),
            };
        }
        if eq_str(name, "REFRESH-INTERVAL") {
            return match RefreshInterval::try_from(rest) {
                Ok(x) => Ok(Property::RefreshInterval(x)),
                Err(e) => Err(e),
            };
        }
        if eq_str(name, "RELATED-TO") {
            return match RelatedTo::try_from(rest) {
                Ok(x) => Ok(Property::RelatedTo(x)),
                Err(e) => Err(e),
            };
        }
        if eq_str(name, "REPEAT") {
            return match Repeat::try_from(rest) {
                Ok(x) => Ok(Property::Repeat(x)),
                Err(e) => Err(e),
            };
        }
        if eq_str(name, "REQUEST-STATUS") {
            return match RequestStatus::try_from(rest) {
                Ok(x) => Ok(Property::RequestStatus(x)),
                Err(e) => Err(e),
            };
        }
        if eq_str(name, "RESOURCES") {
            return match Resources::try_from(rest) {
                Ok(x) => Ok(Property::Resources(x)),
                Err(e) => Err(e),
            };
        }
        if eq_str(name, "SEQUENCE") {
            return match Sequence::try_from(rest) {
                Ok(x) => Ok(Property::Sequence(x)),
                Err(e) => Err(e),
            };
        }
        if eq_str(name, "SOURCE") {
            return match Source::try_from(rest) {
                Ok(x) => Ok(Property::Source(x)),
                Err(e) => Err(e),
            };
        }
        if eq_str(name, "STATUS") {
            return match Status::try_from(rest) {
                Ok(x) => Ok(Property::Status(x)),
                Err(e) => Err(e),
            };
        }
        if eq_str(name, "SUMMARY") {
            return match Summary::try_from(rest) {
                Ok(x) => Ok(Property::Summary(x)),
                Err(e) => Err(e),
            };
        }
        if eq_str(name, "TRANSP") {
            return match TimeTransparency::try_from(rest) {
                Ok(x) => Ok(Property::TimeTransparency(x)),
                Err(e) => Err(e),
            };
        }
        if eq_str(name, "TZID") {
            return match TimeZoneIdentifier::try_from(rest) {
                Ok(x) => Ok(Property::TimeZoneIdentifier(x)),
                Err(e) => Err(e),
            };
        }
        if eq_str(name, "TZNAME") {
            return match TimeZoneName::try_from(rest) {
                Ok(x) => Ok(Property::TimeZoneName(x)),
                Err(e) => Err(e),
            };
        }
        if eq_str(name, "TZOFFSETFROM") {
            return match TimeZoneOffsetFrom::try_from(rest) {
                Ok(x) => Ok(Property::TimeZoneOffsetFrom(x)),
                Err(e) => Err(e),
            };
        }
        if eq_str(name, "TZOFFSETTO") {
            return match TimeZoneOffsetTo::try_from(rest) {
                Ok(x) => Ok(Property::TimeZoneOffsetTo(x)),
                Err(e) => Err(e),
            };
        }
        if eq_str(name, "TZURL") {
            return match TimeZoneUrl::try_from(rest) {
                Ok(x) => Ok(Property::TimeZoneUrl(x)),
                Err(e) => Err(e),
            };
        }
        if eq_str(name, "TRIGGER") {
            return match Trigger::try_from(rest) {
                Ok(x) => Ok(Property::Trigger(x)),
                Err(e) => Err(e),
            };
        }
        if eq_str(name, "UID") {
            return match Uid::try_from(rest) {
                Ok(x) => Ok(Property::Uid(x)),
                Err(e) => Err(e),
            };
        }
        if eq_str(name, "URL") {
            return match UniformResourceLocator::try_from(rest) {
                Ok(x) => Ok(Property::UniformResourceLocator(x)),
                Err(e) => Err(e),
            };
        }
        if eq_str(name, "VERSION") {
            return match Version::try_from(rest) {
                Ok(x) => Ok(Property::Version(x)),
                Err(e) => Err(e),
            };
        }
        if x_prefixed(name) {
            match Xprop::parse(name, rest) {
                Ok(x) => Ok(Property::Xprop(x)),
                Err(e) => Err(e),
            }
        } else {
            match Iana::parse(name, rest) {
                Ok(x) => Ok(Property::Iana(x)),
                Err(e) => Err(e),
            }
        }
    }
}

} // verus!
