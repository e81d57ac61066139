use cratical::params::Language;
use cratical::properties::component::descriptive::{Geo, RefreshInterval};
use cratical::properties::component::misc::{RequestStatus, RequestStatusBuilder};
use cratical::properties::component::recurrence::RRule;
use cratical::properties::component::timezone::{
    TimeZoneIdentifier, TimeZoneName, TimeZoneOffsetFrom, TimeZoneOffsetTo, TimeZoneUrl,
};
use cratical::properties::{ParseError, PropertyError};
use cratical::values::decimal::{Float, Pair};
use cratical::values::duration::Duration as DurationValue;
use cratical::values::offset::UtcOffset;
use cratical::values::recur::{Frequency, Recur, RecurBuilder, Weekday};
use cratical::values::{Ical, Text, Uri};

fn float(x: f64) -> Float {
    Float::try_from(format!("{}", x).as_bytes()).unwrap()
}

fn as_f64(f: &Float) -> f64 {
    f.to_string().parse::<f64>().unwrap()
}

#[test]
fn geo_property_keeps_the_internal_semicolon_in_the_value() {
    let geo = Geo::try_from(b":37.386013;-122.082932".as_slice()).unwrap();
    let Pair(lat, lon) = geo.value();
    assert_eq!(as_f64(lat), 37.386013);
    assert_eq!(as_f64(lon), -122.082932);
}

#[test]
fn geo_property_with_params() {
    let geo = Geo::try_from(b";X-FOO=bar:37.386013;-122.082932".as_slice()).unwrap();
    assert_eq!(geo.params().xname().len(), 1);
}

#[test]
fn geo_display_round_trips_the_lat_lon_pair() {
    let geo = Geo::try_from(b":37.386013;-122.082932".as_slice()).unwrap();
    assert_eq!(geo.to_string(), "GEO:37.386013;-122.082932");
}

#[test]
fn geo_new_matches_the_parsed_equivalent() {
    let geo = Geo::new(Pair::new(float(37.386013), float(-122.082932))).unwrap();
    assert_eq!(geo.to_string(), "GEO:37.386013;-122.082932");
}

#[test]
fn geo_new_rejects_out_of_range_latitude() {
    assert!(Geo::new(Pair::new(float(91.0), float(0.0))).is_err());
}

#[test]
fn geo_latitude_bounds_and_number_forms() {
    assert!(Geo::new(Pair::new(float(90.0), float(0.0))).is_ok());
    assert!(Geo::new(Pair::new(float(-90.0), float(0.0))).is_ok());
    assert!(Geo::new(Pair::new(float(-90.5), float(0.0))).is_err());
    assert!(matches!(
        Geo::try_from(b":90.000001;0".as_slice()),
        Err(ParseError::Property(PropertyError::InvalidGeo))
    ));
    let g = Geo::try_from(b":+037.50;-000122.0".as_slice()).unwrap();
    assert_eq!(g.to_string(), "GEO:37.5;-122");
    assert!(Geo::try_from(b":37.;1".as_slice()).is_err());
    assert!(Geo::try_from(b":37.5".as_slice()).is_err());
}

#[test]
fn rrule_keeps_the_internal_semicolons_in_the_value() {
    let rrule = RRule::try_from(b":FREQ=DAILY;COUNT=10".as_slice()).unwrap();
    assert!(rrule.params().iana().is_empty());
    assert!(rrule.params().xname().is_empty());
}

#[test]
fn rrule_new_matches_the_parsed_equivalent() {
    let recur = RecurBuilder::new(Frequency::Daily).count(10).build().unwrap();
    assert_eq!(RRule::new(recur).to_string(), "RRULE:FREQ=DAILY;COUNT=10");
}

#[test]
fn rrule_recur_and_recur_accessors_read_back_the_parsed_rule() {
    let recur = RecurBuilder::new(Frequency::Monthly)
        .count(5)
        .interval(2)
        .by_day(&[(Some(1), Weekday::Mo)])
        .by_month(&[3])
        .build()
        .unwrap();
    let rrule = RRule::new(recur);

    let recur = rrule.recur();
    assert!(matches!(recur.freq(), Frequency::Monthly));
    assert_eq!(recur.count(), Some(5));
    assert_eq!(recur.interval(), Some(2));
    assert!(recur.until().is_none());

    let by_day = recur.by_day();
    assert_eq!(by_day.len(), 1);
    assert_eq!(by_day[0].ordinal(), Some(1));
    assert!(matches!(by_day[0].weekday(), Weekday::Mo));

    let by_month = recur.by_month();
    assert_eq!(by_month.len(), 1);
    assert_eq!(by_month[0], 3);

    assert!(matches!(rrule.value().freq(), Frequency::Monthly));
}

#[test]
fn recur_parses_and_writes_every_part_in_order() {
    let r = Recur::try_from(b"WKST=SU;BYDAY=-1SU,2MO,TU;FREQ=YEARLY;BYMONTH=1,12;UNTIL=20001231T000000Z;BYSETPOS=-1".as_slice())
        .unwrap();
    assert_eq!(r.to_string(), "FREQ=YEARLY;UNTIL=20001231T000000Z;BYDAY=-1SU,2MO,TU;BYMONTH=1,12;BYSETPOS=-1;WKST=SU");
    let r = Recur::try_from(b"freq=WEEKLY;interval=2;byhour=0,23;byminute=59;bysecond=60".as_slice()).unwrap();
    assert_eq!(r.to_string(), "FREQ=WEEKLY;INTERVAL=2;BYSECOND=60;BYMINUTE=59;BYHOUR=0,23");
}

#[test]
fn recur_rejects_bad_rules() {
    // No FREQ, a repeated part, UNTIL with COUNT, an unknown part, a value out of range.
    assert!(Recur::try_from(b"COUNT=2".as_slice()).is_err());
    assert!(Recur::try_from(b"FREQ=DAILY;FREQ=DAILY".as_slice()).is_err());
    assert!(Recur::try_from(b"FREQ=DAILY;COUNT=2;UNTIL=20000101".as_slice()).is_err());
    assert!(Recur::try_from(b"FREQ=DAILY;X-FOO=1".as_slice()).is_err());
    assert!(Recur::try_from(b"FREQ=DAILY;BYMONTH=13".as_slice()).is_err());
    assert!(Recur::try_from(b"FREQ=DAILY;BYMONTHDAY=0".as_slice()).is_err());
    assert!(Recur::try_from(b"FREQ=DAILY;BYDAY=54MO".as_slice()).is_err());
    assert!(Recur::try_from(b"FREQ=DAILY;INTERVAL=0".as_slice()).is_err());
    assert!(Recur::try_from(b"FREQ=FORTNIGHTLY".as_slice()).is_err());
    assert!(Recur::try_from(b"FREQ=weekly".as_slice()).is_err());
    assert!(Recur::try_from(b"".as_slice()).is_err());
}

#[test]
fn recur_builder_rejects_until_with_count_and_ranges() {
    let until = cratical::values::datetime::DateOrDatetime::try_from(b"20000101".as_slice()).unwrap();
    assert!(RecurBuilder::new(Frequency::Daily).count(1).until(until).build().is_err());
    assert!(RecurBuilder::new(Frequency::Daily).by_hour(&[24]).build().is_err());
    assert!(RecurBuilder::new(Frequency::Daily).by_week_no(&[-53, 53]).build().is_ok());
    assert!(RecurBuilder::new(Frequency::Daily).by_day(&[(Some(0), Weekday::Fr)]).build().is_err());
}

#[test]
fn request_status_keeps_the_internal_semicolon_in_the_value() {
    let rs = RequestStatus::try_from(b":2.0;Success".as_slice()).unwrap();
    assert_eq!(rs.value().as_str(), "2.0;Success");
}

#[test]
fn request_status_builder_round_trips() {
    let rs = RequestStatusBuilder::new(Text::from("2.0;Success")).build();
    assert_eq!(rs.to_string(), "REQUEST-STATUS:2.0;Success");
    let lang = Language::try_from(b"en-US".as_slice()).unwrap();
    let rs = RequestStatusBuilder::new(Text::from("3.1;Invalid property value;DTSTART:96-Apr-01"))
        .language(lang)
        .build();
    assert_eq!(rs.to_string(), "REQUEST-STATUS;LANGUAGE=en-US:3.1;Invalid property value;DTSTART:96-Apr-01");
}

#[test]
fn timezone_simple_constructors_match_their_parsed_equivalent() {
    assert_eq!(
        TimeZoneIdentifier::new(Text::from("America/New_York")).to_string(),
        "TZID:America/New_York"
    );
    assert_eq!(TimeZoneName::new(Text::from("EST"), None).to_string(), "TZNAME:EST");
    let offset = UtcOffset::try_from(b"-0500".as_slice()).unwrap();
    assert_eq!(TimeZoneOffsetFrom::new(offset).to_string(), "TZOFFSETFROM:-0500");
    assert_eq!(TimeZoneOffsetTo::new(offset).to_string(), "TZOFFSETTO:-0500");
    assert_eq!(
        TimeZoneUrl::new(Uri::parse("http://timezones.example.org/tz/America-Los_Angeles.ics").unwrap()).to_string(),
        "TZURL:http://timezones.example.org/tz/America-Los_Angeles.ics"
    );
}

#[test]
fn utc_offsets_round_trip_and_reject_negative_zero() {
    assert_eq!(UtcOffset::try_from(b"+0530".as_slice()).unwrap().seconds(), 19800);
    assert_eq!(UtcOffset::try_from(b"-013015".as_slice()).unwrap().to_string(), "-013015");
    assert_eq!(UtcOffset::new(0).to_string(), "+0000");
    assert!(UtcOffset::try_from(b"-0000".as_slice()).is_err());
    assert!(UtcOffset::try_from(b"+2400".as_slice()).is_err());
    assert!(UtcOffset::try_from(b"0500".as_slice()).is_err());
}

#[test]
fn color_source_refresh_interval_new_match_the_parsed_equivalent() {
    assert_eq!(
        cratical::properties::component::descriptive::Color::new(Text::from("turquoise")).to_string(),
        "COLOR:turquoise"
    );
    assert_eq!(
        cratical::properties::component::descriptive::Source::new(
            Uri::parse("https://example.com/holidays.ics").unwrap()
        )
        .to_string(),
        "SOURCE:https://example.com/holidays.ics"
    );
    assert_eq!(
        RefreshInterval::new(DurationValue::new(chrono::Duration::hours(1).num_seconds())).to_string(),
        "REFRESH-INTERVAL:PT1H"
    );
}

#[test]
fn duration_writes_and_reads_back() {
    for s in [0i64, 1, 59, 60, 3600, 86399, 86400, 93784, -93784, 1_000_000_000, i64::MAX, -i64::MAX] {
        let d = DurationValue::new(s);
        let text = d.to_string();
        assert_eq!(DurationValue::try_from(text.as_bytes()).unwrap().seconds(), s);
    }
    assert_eq!(DurationValue::new(93784).to_string(), "P1DT2H3M4S");
    assert_eq!(DurationValue::new(0).to_string(), "PT0S");
}

#[test]
fn recur_written_by_the_builder_reads_back_as_itself() {
    let r = RecurBuilder::new(Frequency::Monthly)
        .interval(3)
        .count(12)
        .by_day(&[(Some(-1), Weekday::Fr), (None, Weekday::Mo)])
        .by_month_day(&[-31, 1, 15])
        .by_set_pos(&[-366, 366])
        .wkst(Weekday::Su)
        .build()
        .unwrap();
    let text = r.to_string();
    assert_eq!(text, "FREQ=MONTHLY;COUNT=12;INTERVAL=3;BYDAY=-1FR,MO;BYMONTHDAY=-31,1,15;BYSETPOS=-366,366;WKST=SU");
    let back = Recur::try_from(text.as_bytes()).unwrap();
    assert_eq!(back.to_string(), text);
    assert_eq!(back.count(), Some(12));
    assert_eq!(back.interval(), Some(3));
    assert_eq!(back.by_month_day(), &[-31, 1, 15]);
    assert_eq!(back.by_set_pos(), &[-366, 366]);
    assert_eq!(back.by_day().len(), 2);
}
