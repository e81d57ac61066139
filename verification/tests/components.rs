use chrono::{TimeZone, Utc};
use cratical::calendar::{Calendar, CalendarBuilder, Component};
use cratical::components::alarm::{Alarm, AlarmBuilder};
use cratical::components::availability::{AvailabilityBuilder, AvailableBuilder};
use cratical::components::event::EventBuilder;
use cratical::components::free_busy::FreeBusyBuilder;
use cratical::components::journal::JournalBuilder;
use cratical::components::timezone::{TimezoneBuilder, TzPropBuilder};
use cratical::components::todo::TodoBuilder;
use cratical::components::unknown::UnknownComponent;
use cratical::components::vlocation::VLocationBuilder;
use cratical::components::ComponentError;
use cratical::properties::calendar::{ProductIdentifier, Version};
use cratical::properties::component::alarms::{Trigger, TriggerBuilder};
use cratical::properties::component::change::DateTimeStamp;
use cratical::properties::component::datetime::{
    DateTimeDueBuilder, DateTimeEndBuilder, DateTimeStartBuilder, Duration,
};
use cratical::properties::component::descriptive::{Attachment, DescriptionBuilder, SummaryBuilder};
use cratical::properties::component::location::NameBuilder;
use cratical::properties::component::recurrence::ExceptionDateTimes;
use cratical::properties::component::relationship::{AttendeeBuilder, Uid, UniformResourceLocator};
use cratical::properties::component::timezone::{TimeZoneIdentifier, TimeZoneOffsetFrom, TimeZoneOffsetTo};
use cratical::values::datetime::{Date, DateOrDatetime, DateTime};
use cratical::values::duration::{DateTimeDuration, Duration as DurationValue};
use cratical::values::offset::UtcOffset;
use cratical::values::{CalendarUserAddress, Ical, Text, Uri};

fn utc(y: i32, mo: u32, d: u32, h: u32, mi: u32, s: u32) -> DateTime {
    let t = Utc.with_ymd_and_hms(y, mo, d, h, mi, s).unwrap();
    DateTime::try_from(t.format("%Y%m%dT%H%M%SZ").to_string().as_bytes()).unwrap()
}

fn floating(y: i32, mo: u32, d: u32, h: u32, mi: u32, s: u32) -> DateTime {
    let t = chrono::NaiveDate::from_ymd_opt(y, mo, d).unwrap().and_hms_opt(h, mi, s).unwrap();
    DateTime::try_from(t.format("%Y%m%dT%H%M%S").to_string().as_bytes()).unwrap()
}

fn hours(n: i64) -> DurationValue {
    DurationValue::new(chrono::Duration::hours(n).num_seconds())
}

fn minutes(n: i64) -> DurationValue {
    DurationValue::new(chrono::Duration::minutes(n).num_seconds())
}

fn trigger() -> Trigger {
    TriggerBuilder::new(DateTimeDuration::Duration(minutes(-15))).build()
}

fn event_dtstamp() -> DateTimeStamp {
    DateTimeStamp::new(utc(1997, 9, 1, 13, 0, 0))
}

fn event_uid() -> Uid {
    Uid::new(Text::from("123@example.com"))
}

#[test]
fn event_builder_round_trips_a_minimal_event() {
    let dtstart = DateTimeStartBuilder::new(DateOrDatetime::DateTime(utc(1997, 9, 3, 16, 30, 0))).build();
    let event = EventBuilder::new(event_dtstamp(), event_uid()).dtstart(dtstart).build(false).unwrap();
    assert_eq!(
        event.to_string(),
        "BEGIN:VEVENT\r\nDTSTAMP:19970901T130000Z\r\nUID:123@example.com\r\nDTSTART:19970903T163000Z\r\nEND:VEVENT\r\n"
    );
}

#[test]
fn event_builder_requires_dtstart_unless_has_method() {
    assert!(matches!(
        EventBuilder::new(event_dtstamp(), event_uid()).build(false),
        Err(ComponentError::MissingField("DTSTART"))
    ));
    assert!(EventBuilder::new(event_dtstamp(), event_uid()).build(true).is_ok());
}

#[test]
fn event_builder_dtend_rejects_a_mismatched_value_type() {
    let dtstart = DateTimeStartBuilder::new(DateOrDatetime::DateTime(utc(1997, 9, 3, 16, 30, 0))).build();
    let dtend = DateTimeEndBuilder::new(DateOrDatetime::Date(Date::try_from(b"19970904".as_slice()).unwrap())).build();
    let result = EventBuilder::new(event_dtstamp(), event_uid()).dtstart(dtstart).dtend(dtend).build(false);
    assert!(matches!(result, Err(ComponentError::MismatchedValueType("DTEND", "DTSTART"))));
}

#[test]
fn event_builder_accepts_duration_instead_of_dtend() {
    let dtstart = DateTimeStartBuilder::new(DateOrDatetime::DateTime(utc(1997, 9, 3, 16, 30, 0))).build();
    let event = EventBuilder::new(event_dtstamp(), event_uid())
        .dtstart(dtstart)
        .duration(Duration::new(hours(1)))
        .build(false)
        .unwrap();
    assert!(event.dtend().is_none());
    assert!(event.duration().is_some());
}

#[test]
fn event_builder_rejects_an_exdate_of_another_type_and_tzid() {
    let dtstart = DateTimeStartBuilder::new(DateOrDatetime::DateTime(utc(1997, 9, 3, 16, 30, 0))).build();
    let exdate = ExceptionDateTimes::try_from(b";VALUE=DATE:19970904".as_slice()).unwrap();
    let result = EventBuilder::new(event_dtstamp(), event_uid()).dtstart(dtstart).exdate(exdate).build(false);
    assert!(matches!(result, Err(ComponentError::MismatchedValueType("EXDATE", "DTSTART"))));

    let dtstart = DateTimeStartBuilder::new(DateOrDatetime::DateTime(utc(1997, 9, 3, 16, 30, 0))).build();
    let exdate = ExceptionDateTimes::try_from(b";TZID=Europe/London:19970904T163000".as_slice()).unwrap();
    let result = EventBuilder::new(event_dtstamp(), event_uid()).dtstart(dtstart).exdate(exdate).build(false);
    assert!(matches!(result, Err(ComponentError::MismatchedTzid("EXDATE", "DTSTART"))));
}

fn todo_dtstamp() -> DateTimeStamp {
    DateTimeStamp::new(utc(2007, 3, 13, 12, 34, 32))
}

fn todo_uid() -> Uid {
    Uid::new(Text::from("20070313T123432Z-456553@example.com"))
}

#[test]
fn todo_builder_round_trips_a_minimal_todo() {
    let due = DateTimeDueBuilder::new(DateOrDatetime::Date(Date::try_from(b"20070501".as_slice()).unwrap())).build();
    let todo = TodoBuilder::new(todo_dtstamp(), todo_uid())
        .due(due)
        .summary(SummaryBuilder::new(Text::from("Submit Quebec Income Tax Return for 2006")).build())
        .build()
        .unwrap();
    assert_eq!(
        todo.to_string(),
        "BEGIN:VTODO\r\nDTSTAMP:20070313T123432Z\r\nUID:20070313T123432Z-456553@example.com\r\nSUMMARY:Submit Quebec Income Tax Return for 2006\r\nDUE;VALUE=DATE:20070501\r\nEND:VTODO\r\n"
    );
}

#[test]
fn todo_builder_rejects_duration_without_dtstart() {
    let result = TodoBuilder::new(todo_dtstamp(), todo_uid()).duration(Duration::new(hours(1))).build();
    assert!(matches!(result, Err(ComponentError::Requires("DURATION", "DTSTART"))));
}

#[test]
fn todo_builder_accepts_duration_with_dtstart() {
    let dtstart = DateTimeStartBuilder::new(DateOrDatetime::DateTime(utc(2007, 3, 13, 12, 0, 0))).build();
    let todo = TodoBuilder::new(todo_dtstamp(), todo_uid())
        .dtstart(dtstart)
        .duration(Duration::new(hours(1)))
        .build()
        .unwrap();
    assert!(todo.due().is_none());
    assert!(todo.duration().is_some());
}

#[test]
fn journal_builder_round_trips_a_minimal_journal() {
    let journal = JournalBuilder::new(
        DateTimeStamp::new(utc(1997, 9, 1, 13, 0, 0)),
        Uid::new(Text::from("19970901T130000Z-123405@example.com")),
    )
    .build()
    .unwrap();
    assert_eq!(
        journal.to_string(),
        "BEGIN:VJOURNAL\r\nDTSTAMP:19970901T130000Z\r\nUID:19970901T130000Z-123405@example.com\r\nEND:VJOURNAL\r\n"
    );
}

#[test]
fn free_busy_builder_writes_its_uid() {
    let free_busy = FreeBusyBuilder::new()
        .uid(Uid::new(Text::from("19970901T082949Z-FA43EF@example.com")))
        .build()
        .unwrap();
    assert_eq!(
        free_busy.to_string(),
        "BEGIN:VFREEBUSY\r\nUID:19970901T082949Z-FA43EF@example.com\r\nEND:VFREEBUSY\r\n"
    );
}

#[test]
fn free_busy_builder_rejects_a_mismatched_dtend_value_type() {
    let dtstart = DateTimeStartBuilder::new(DateOrDatetime::DateTime(utc(1997, 10, 15, 5, 0, 0))).build();
    let dtend = DateTimeEndBuilder::new(DateOrDatetime::Date(Date::try_from(b"19971016".as_slice()).unwrap())).build();
    let result = FreeBusyBuilder::new().dtstart(dtstart).dtend(dtend).build();
    assert!(matches!(result, Err(ComponentError::MismatchedValueType("DTEND", "DTSTART"))));
}

fn offset(west_hours: i32) -> UtcOffset {
    let o = chrono::FixedOffset::west_opt(west_hours * 3600).unwrap();
    UtcOffset::new(o.local_minus_utc())
}

#[test]
fn timezone_builder_round_trips_a_minimal_timezone() {
    let dtstart = DateTimeStartBuilder::new(DateOrDatetime::DateTime(floating(2007, 11, 4, 2, 0, 0))).build();
    let standard = TzPropBuilder::new(dtstart, TimeZoneOffsetTo::new(offset(5)), TimeZoneOffsetFrom::new(offset(4)))
        .build()
        .unwrap();
    let timezone = TimezoneBuilder::new(TimeZoneIdentifier::new(Text::from("America/New_York")))
        .standard(standard)
        .build()
        .unwrap();
    assert_eq!(
        timezone.to_string(),
        "BEGIN:VTIMEZONE\r\nTZID:America/New_York\r\nBEGIN:STANDARD\r\nDTSTART:20071104T020000\r\nTZOFFSETTO:-0500\r\nTZOFFSETFROM:-0400\r\nEND:STANDARD\r\nEND:VTIMEZONE\r\n"
    );
}

#[test]
fn timezone_builder_rejects_no_standard_or_daylight() {
    let result = TimezoneBuilder::new(TimeZoneIdentifier::new(Text::from("America/New_York"))).build();
    assert!(matches!(result, Err(ComponentError::RequiresAtLeastOne("VTIMEZONE", "STANDARD or DAYLIGHT"))));
}

fn availability_dtstamp() -> DateTimeStamp {
    DateTimeStamp::new(utc(2011, 10, 5, 13, 32, 25))
}

#[test]
fn availability_builder_round_trips_a_minimal_availability() {
    let availability = AvailabilityBuilder::new(
        availability_dtstamp(),
        Uid::new(Text::from("0428C7D2-688E-4D2E-AC52-CD112E2469DF")),
    )
    .build()
    .unwrap();
    assert_eq!(
        availability.to_string(),
        "BEGIN:VAVAILABILITY\r\nDTSTAMP:20111005T133225Z\r\nUID:0428C7D2-688E-4D2E-AC52-CD112E2469DF\r\nEND:VAVAILABILITY\r\n"
    );
}

#[test]
fn availability_builder_rejects_duration_without_dtstart() {
    let result = AvailabilityBuilder::new(availability_dtstamp(), Uid::new(Text::from("uid@example.com")))
        .duration(Duration::new(hours(1)))
        .build();
    assert!(matches!(result, Err(ComponentError::Requires("DURATION", "DTSTART"))));
}

#[test]
fn available_builder_round_trips_a_minimal_available() {
    let dtstart = DateTimeStartBuilder::new(DateOrDatetime::DateTime(utc(2011, 10, 2, 9, 0, 0))).build();
    let available = AvailableBuilder::new(dtstart, Uid::new(Text::from("34EDA59B-6BB1-4E94-A66C-64999089C0AF")))
        .build()
        .unwrap();
    assert_eq!(
        available.to_string(),
        "BEGIN:AVAILABLE\r\nDTSTART:20111002T090000Z\r\nUID:34EDA59B-6BB1-4E94-A66C-64999089C0AF\r\nEND:AVAILABLE\r\n"
    );
}

#[test]
fn vlocation_builder_round_trips_a_minimal_vlocation() {
    let vlocation = VLocationBuilder::new(Uid::new(Text::from("123456-abcdef-98765432")))
        .name(NameBuilder::new(Text::from("Office")).build())
        .url(UniformResourceLocator::new(Uri::parse("geo:40.443,-79.945;u=10").unwrap()))
        .build();
    assert_eq!(
        vlocation.to_string(),
        "BEGIN:VLOCATION\r\nUID:123456-abcdef-98765432\r\nNAME:Office\r\nURL:geo:40.443,-79.945;u=10\r\nEND:VLOCATION\r\n"
    );
}

#[test]
fn audio_alarm_builder_round_trips() {
    let alarm = AlarmBuilder::audio(trigger()).build().unwrap();
    assert_eq!(alarm.to_string(), "BEGIN:VALARM\r\nACTION:AUDIO\r\nTRIGGER:-PT15M\r\nEND:VALARM\r\n");
}

#[test]
fn audio_alarm_builder_rejects_more_than_one_attach() {
    let attach = |uri: &str| Attachment::from_uri(Uri::parse(uri).unwrap(), None);
    let result = AlarmBuilder::audio(trigger())
        .attach(attach("ftp://example.com/a.aud"))
        .attach(attach("ftp://example.com/b.aud"))
        .build();
    assert!(matches!(result, Err(ComponentError::NotAllowed("more than one ATTACH", "ACTION is AUDIO"))));
}

#[test]
fn display_alarm_builder_round_trips() {
    let alarm = AlarmBuilder::display(trigger(), DescriptionBuilder::new(Text::from("Meeting reminder")).build())
        .build()
        .unwrap();
    assert_eq!(
        alarm.to_string(),
        "BEGIN:VALARM\r\nACTION:DISPLAY\r\nTRIGGER:-PT15M\r\nDESCRIPTION:Meeting reminder\r\nEND:VALARM\r\n"
    );
}

#[test]
fn email_alarm_builder_requires_an_attendee_by_construction() {
    let attendee = AttendeeBuilder::new(
        CalendarUserAddress::new(Uri::parse("mailto:jsmith@example.com").unwrap()).unwrap(),
    )
    .build();
    let alarm = AlarmBuilder::email(
        trigger(),
        DescriptionBuilder::new(Text::from("A reminder")).build(),
        SummaryBuilder::new(Text::from("Reminder")).build(),
        attendee,
    )
    .build()
    .unwrap();
    assert_eq!(alarm.attendee().len(), 1);
}

#[test]
fn alarm_builder_rejects_a_location_without_proximity() {
    let location = VLocationBuilder::new(Uid::new(Text::from("loc@example.com"))).build();
    let result = AlarmBuilder::audio(trigger()).location(location).build();
    assert!(matches!(result, Err(ComponentError::Requires("VLOCATION", "PROXIMITY"))));
}

fn nested_alarm() -> Alarm {
    AlarmBuilder::audio(trigger()).build().unwrap()
}

#[test]
fn event_writes_its_alarms_after_its_properties() {
    let event = EventBuilder::new(event_dtstamp(), event_uid()).alarm(nested_alarm()).build(true).unwrap();
    assert_eq!(
        event.to_string(),
        "BEGIN:VEVENT\r\nDTSTAMP:19970901T130000Z\r\nUID:123@example.com\r\nBEGIN:VALARM\r\nACTION:AUDIO\r\nTRIGGER:-PT15M\r\nEND:VALARM\r\nEND:VEVENT\r\n"
    );
}

#[test]
fn calendar_builder_writes_a_minimal_calendar() {
    let dtstart = DateTimeStartBuilder::new(DateOrDatetime::DateTime(utc(1997, 9, 3, 16, 30, 0))).build();
    let event = EventBuilder::new(event_dtstamp(), event_uid()).dtstart(dtstart).build(false).unwrap();
    let calendar = CalendarBuilder::new(
        ProductIdentifier::new(Text::from("-//example//EN")),
        Version::new(Text::from("2.0")),
    )
    .component(Component::from(event))
    .build()
    .unwrap();
    assert_eq!(calendar.components().len(), 1);
    assert_eq!(
        calendar.to_string(),
        "BEGIN:VCALENDAR\r\nPRODID:-//example//EN\r\nVERSION:2.0\r\nBEGIN:VEVENT\r\nDTSTAMP:19970901T130000Z\r\nUID:123@example.com\r\nDTSTART:19970903T163000Z\r\nEND:VEVENT\r\nEND:VCALENDAR\r\n"
    );
}

#[test]
fn calendar_builder_requires_a_component_and_event_starts_without_method() {
    let builder = CalendarBuilder::new(
        ProductIdentifier::new(Text::from("-//example//EN")),
        Version::new(Text::from("2.0")),
    );
    assert!(matches!(
        builder.build(),
        Err(ComponentError::RequiresAtLeastOne("VCALENDAR", "calendar component"))
    ));
    let event = EventBuilder::new(event_dtstamp(), event_uid()).build(true).unwrap();
    let result: Result<Calendar, ComponentError> = CalendarBuilder::new(
        ProductIdentifier::new(Text::from("-//example//EN")),
        Version::new(Text::from("2.0")),
    )
    .component(Component::from(event))
    .build();
    assert!(matches!(result, Err(ComponentError::MissingField("DTSTART"))));
}

#[test]
fn unknown_component_is_written_whole() {
    let inner = UnknownComponent::new("X-INNER".to_string(), vec!["X-B:2".to_string()], vec![]);
    let outer = UnknownComponent::new("X-OUTER".to_string(), vec!["X-A:1".to_string()], vec![inner]);
    assert_eq!(
        outer.to_string(),
        "BEGIN:X-OUTER\r\nX-A:1\r\nBEGIN:X-INNER\r\nX-B:2\r\nEND:X-INNER\r\nEND:X-OUTER\r\n"
    );
}
