use cratical::params::{AlarmTriggerRelationship, Fbtype, RecurrenceIdentifierRange, TimeZoneIdentifier};
use cratical::properties::component::alarm_ext::Acknowledged;
use cratical::properties::component::alarms::TriggerBuilder;
use cratical::properties::component::change::{DateTimeCreated, DateTimeStamp, LastModified, Sequence};
use cratical::properties::component::datetime::{
    DateTimeDueBuilder, DateTimeEndBuilder, DateTimeStart, DateTimeStartBuilder, Duration,
    FreeBusyTime, TranspValue,
};
use cratical::properties::component::recurrence::{ExceptionDateTimes, RecurrenceDateTimes};
use cratical::properties::component::relationship::{RecurrenceId, RecurrenceIdBuilder};
use cratical::values::datetime::{Date, DateOrDatetime, DateTime};
use cratical::values::duration::{DateTimeDuration, DateTimePeriod, Duration as DurationValue, Period};
use cratical::values::{Ical, Integer};

#[test]
fn acknowledged_parses_and_displays() {
    let line = "ACKNOWLEDGED:20090604T084500Z";
    let acknowledged = Acknowledged::try_from(line.as_bytes()[12..].as_ref()).unwrap();
    assert_eq!(acknowledged.to_string(), line);
}

#[test]
fn change_simple_constructors_match_their_parsed_equivalent() {
    let dt = DateTime::try_from(b"19960329T133000Z".as_slice()).unwrap();
    assert_eq!(DateTimeCreated::new(dt).to_string(), "CREATED:19960329T133000Z");
    assert_eq!(DateTimeStamp::new(dt).to_string(), "DTSTAMP:19960329T133000Z");
    assert_eq!(LastModified::new(dt).to_string(), "LAST-MODIFIED:19960329T133000Z");
    assert_eq!(Sequence::new(Integer::new(0)).to_string(), "SEQUENCE:0");
}

#[test]
fn trigger_builder_defaults_to_a_bare_duration() {
    let duration = DurationValue::new(-15 * 60);
    let trigger = TriggerBuilder::new(DateTimeDuration::Duration(duration)).build();
    assert_eq!(trigger.to_string(), "TRIGGER:-PT15M");
}

#[test]
fn trigger_builder_sets_value_date_time_and_related_for_a_datetime() {
    let dt = DateTime::try_from(b"19980101T050000Z".as_slice()).unwrap();
    let trigger = TriggerBuilder::new(DateTimeDuration::DateTime(dt))
        .related(AlarmTriggerRelationship::End)
        .build();
    assert_eq!(trigger.to_string(), "TRIGGER;VALUE=DATE-TIME;RELATED=END:19980101T050000Z");
}

#[test]
fn transp_value_tokens() {
    assert!(matches!(TranspValue::try_from(b"OPAQUE".as_slice()), Ok(TranspValue::Opaque)));
    assert!(matches!(TranspValue::try_from(b"TRANSPARENT".as_slice()), Ok(TranspValue::Transparent)));
}

#[test]
fn transp_value_rejects_unknown() {
    assert!(TranspValue::try_from(b"BOGUS".as_slice()).is_err());
}

#[test]
fn dtstart_display_round_trips_a_utc_value_with_no_params() {
    let dtstart = DateTimeStart::try_from(b":19980118T073000Z".as_slice()).unwrap();
    assert_eq!(dtstart.to_string(), "DTSTART:19980118T073000Z");
}

#[test]
fn dtstart_display_round_trips_the_tzid_param() {
    let dtstart = DateTimeStart::try_from(b";TZID=America/New_York:19980119T020000".as_slice()).unwrap();
    assert_eq!(dtstart.to_string(), "DTSTART;TZID=America/New_York:19980119T070000Z");
}

#[test]
fn duration_property_display_round_trips() {
    let duration = Duration::try_from(b":PT1H0M0S".as_slice()).unwrap();
    assert_eq!(duration.to_string(), "DURATION:PT1H");
}

#[test]
fn dtstart_builder_round_trips_a_utc_value_with_no_params() {
    let dt = DateTime::try_from(b"19980118T073000Z".as_slice()).unwrap();
    let dtstart = DateTimeStartBuilder::new(DateOrDatetime::DateTime(dt)).build();
    assert_eq!(dtstart.to_string(), "DTSTART:19980118T073000Z");
}

#[test]
fn dtstart_builder_resolves_a_floating_value_against_tzid() {
    let dt = DateTime::try_from(b"19980119T020000".as_slice()).unwrap();
    let tzid = TimeZoneIdentifier::try_from(b"America/New_York".as_slice()).unwrap();
    let dtstart = DateTimeStartBuilder::new(DateOrDatetime::DateTime(dt)).tzid(tzid).build();
    assert_eq!(dtstart.to_string(), "DTSTART;TZID=America/New_York:19980119T070000Z");
}

#[test]
fn dtend_builder_sets_value_date_for_a_date_value() {
    let date = Date::try_from(b"19980704".as_slice()).unwrap();
    let dtend = DateTimeEndBuilder::new(DateOrDatetime::Date(date)).build();
    assert_eq!(dtend.to_string(), "DTEND;VALUE=DATE:19980704");
}

#[test]
fn due_builder_round_trips() {
    let dt = DateTime::try_from(b"19980430T000000Z".as_slice()).unwrap();
    let due = DateTimeDueBuilder::new(DateOrDatetime::DateTime(dt)).build();
    assert_eq!(due.to_string(), "DUE:19980430T000000Z");
}

#[test]
fn free_busy_time_new_round_trips() {
    let start = DateTime::try_from(b"19970308T160000Z".as_slice()).unwrap();
    let duration = DurationValue::new(8 * 3600 + 30 * 60);
    let ps = vec![Period::Duration { start, duration }];
    let freebusy = FreeBusyTime::new(ps, Fbtype::BusyUnavailable);
    assert_eq!(freebusy.to_string(), "FREEBUSY;FBTYPE=BUSY-UNAVAILABLE:19970308T160000Z/PT8H30M");
}

#[test]
fn free_busy_time_parses_a_list_and_writes_the_default_type() {
    let fb = FreeBusyTime::try_from(b":19970308T160000Z/PT3H,19970308T200000Z/19970308T210000Z".as_slice())
        .unwrap();
    assert_eq!(fb.value().len(), 2);
    assert_eq!(
        fb.to_string(),
        "FREEBUSY;FBTYPE=BUSY:19970308T160000Z/PT3H,19970308T200000Z/19970308T210000Z"
    );
}

#[test]
fn exception_date_times_list() {
    let exdate = ExceptionDateTimes::try_from(b":19960402T010000Z,19960403T010000Z".as_slice()).unwrap();
    assert_eq!(exdate.value().len(), 2);
}

#[test]
fn recurrence_date_times_list() {
    let rdate = RecurrenceDateTimes::try_from(b":19970714T083000,19970715T083000".as_slice()).unwrap();
    assert_eq!(rdate.value().len(), 2);
}

#[test]
fn exception_date_times_new_sets_value_date_for_date_values() {
    let date = Date::try_from(b"19960402".as_slice()).unwrap();
    let exdate = ExceptionDateTimes::new(vec![DateOrDatetime::Date(date)], None);
    assert_eq!(exdate.to_string(), "EXDATE;VALUE=DATE:19960402");
}

#[test]
fn exception_date_times_new_resolves_tzid() {
    let dt = DateTime::try_from(b"19980119T020000".as_slice()).unwrap();
    let tzid = TimeZoneIdentifier::try_from(b"America/New_York".as_slice()).unwrap();
    let exdate = ExceptionDateTimes::new(vec![DateOrDatetime::DateTime(dt)], Some(tzid));
    assert_eq!(exdate.to_string(), "EXDATE;TZID=America/New_York:19980119T070000Z");
}

#[test]
fn recurrence_date_times_new_sets_value_period() {
    let start = DateTime::try_from(b"19970101T180000Z".as_slice()).unwrap();
    let end = DateTime::try_from(b"19970102T070000Z".as_slice()).unwrap();
    let period = Period::StartEnd { start, end };
    let rdate = RecurrenceDateTimes::new(vec![DateTimePeriod::Period(period)], None);
    assert_eq!(rdate.to_string(), "RDATE;VALUE=PERIOD:19970101T180000Z/19970102T070000Z");
}

#[test]
fn recurrence_id_builder_sets_value_date_and_range() {
    let date = Date::try_from(b"19960401".as_slice()).unwrap();
    let recurrence_id = RecurrenceIdBuilder::new(DateOrDatetime::Date(date))
        .range(RecurrenceIdentifierRange::ThisAndFuture)
        .build();
    assert_eq!(recurrence_id.to_string(), "RECURRENCE-ID;VALUE=DATE;RANGE=THISANDFUTURE:19960401");
}

#[test]
fn recurrence_id_value_accessor_reads_back_the_parsed_value() {
    let date = Date::try_from(b"19960401".as_slice()).unwrap();
    let recurrence_id = RecurrenceIdBuilder::new(DateOrDatetime::Date(date)).build();
    assert_eq!(recurrence_id.value(), &DateOrDatetime::Date(date));
}

#[test]
fn recurrence_id_parses_and_resolves() {
    let r = RecurrenceId::try_from(b";TZID=America/New_York:19960404T010000".as_slice()).unwrap();
    assert_eq!(r.to_string(), "RECURRENCE-ID;TZID=America/New_York:19960404T060000Z");
}

#[test]
fn dates_and_date_times_check_the_calendar() {
    assert!(Date::try_from(b"20240229".as_slice()).is_ok());
    assert!(Date::try_from(b"20230229".as_slice()).is_err());
    assert!(Date::try_from(b"19001301".as_slice()).is_err());
    assert!(DateTime::try_from(b"19980118T240000Z".as_slice()).is_err());
    assert!(DateTime::try_from(b"19980118T073000X".as_slice()).is_err());
    assert_eq!(DateTime::try_from(b"19980118T073000".as_slice()).unwrap().to_string(), "19980118T073000");
}

#[test]
fn floating_times_move_across_midnight_and_year_ends() {
    let dt = DateTime::try_from(b"19981231T220000".as_slice()).unwrap();
    assert_eq!(dt.resolve_tz(Some("America/New_York")).to_string(), "19990101T030000Z");
    let dt = DateTime::try_from(b"20000101T003000".as_slice()).unwrap();
    assert_eq!(dt.resolve_tz(Some("Asia/Tokyo")).to_string(), "19991231T153000Z");
    let dt = DateTime::try_from(b"20000101T003000".as_slice()).unwrap();
    assert_eq!(dt.resolve_tz(Some("Not/A_Zone")).to_string(), "20000101T003000");
}

#[test]
fn durations_parse_and_write_canonically() {
    assert_eq!(DurationValue::try_from(b"P1W".as_slice()).unwrap().seconds(), 604800);
    assert_eq!(DurationValue::try_from(b"-P1DT2H".as_slice()).unwrap().to_string(), "-P1DT2H");
    assert_eq!(DurationValue::try_from(b"+PT90M".as_slice()).unwrap().to_string(), "PT1H30M");
    assert_eq!(DurationValue::new(0).to_string(), "PT0S");
    assert!(DurationValue::try_from(b"P".as_slice()).is_err());
    assert!(DurationValue::try_from(b"PT".as_slice()).is_err());
    assert!(DurationValue::try_from(b"PT1S1M".as_slice()).is_err());
    assert!(DurationValue::try_from(b"P1W2D".as_slice()).is_err());
}
