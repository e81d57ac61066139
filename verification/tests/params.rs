use cratical::params::{
    Altrep, CommonName, Delegatees, Delegators, DirectoryEntryReference, Fbtype, Feature,
    FeatureValue, Fmttype, ImageDisplay, ImageDisplayValue, Language, Member, ParamError,
    ParticipationStatus, PartStatEvent, PartStatTodo, Rsvp, SentBy, TimeZoneIdentifier,
    ValueDataType,
};
use chrono_tz::Tz;
use cratical::values::{CalendarUserAddress, Ical, MediaType, Text, Uri};

#[test]
fn tzid_strips_a_non_conformant_wrapping_quote_pair() {
    let tz = TimeZoneIdentifier::try_from(b"\"Central Standard Time\"".as_slice()).unwrap();
    assert_eq!(tz.as_str(), "Central Standard Time");
}

#[test]
fn tzid_accepts_a_clean_iana_zone_name() {
    let tz = TimeZoneIdentifier::try_from(b"America/New_York".as_slice()).unwrap();
    assert_eq!(tz.resolve(), Some(Tz::America__New_York));
}

#[test]
fn tzid_accepts_a_raw_utc_offset_but_does_not_resolve_it() {
    let tz = TimeZoneIdentifier::try_from(b"UTC+11".as_slice()).unwrap();
    assert_eq!(tz.as_str(), "UTC+11");
    assert_eq!(tz.resolve(), None);
}

#[test]
fn tzid_accepts_a_space_instead_of_underscore_but_does_not_resolve_it() {
    let tz = TimeZoneIdentifier::try_from(b"America/Los Angeles".as_slice()).unwrap();
    assert_eq!(tz.as_str(), "America/Los Angeles");
    assert_eq!(tz.resolve(), None);
}

#[test]
fn tzid_accepts_a_non_ascii_display_name_but_does_not_resolve_it() {
    let tz = TimeZoneIdentifier::try_from("(UTC-03:00) Brasília".as_bytes()).unwrap();
    assert_eq!(tz.as_str(), "(UTC-03:00) Brasília");
    assert_eq!(tz.resolve(), None);
}

#[test]
fn tzid_accepts_a_windows_exchange_zone_name_but_does_not_resolve_it() {
    let tz = TimeZoneIdentifier::try_from(b"Eastern Standard Time".as_slice()).unwrap();
    assert_eq!(tz.as_str(), "Eastern Standard Time");
    assert_eq!(tz.resolve(), None);
}

#[test]
fn tzid_preserves_a_globally_unique_slash_prefix() {
    let tz = TimeZoneIdentifier::try_from(
        b"/freeassociation.sourceforge.net/Europe/Berlin".as_slice(),
    )
    .unwrap();
    assert_eq!(tz.as_str(), "/freeassociation.sourceforge.net/Europe/Berlin");
    assert_eq!(tz.resolve(), None);
}

#[test]
fn tzid_new_matches_the_parsed_equivalent() {
    let built = TimeZoneIdentifier::new(Tz::America__New_York);
    let parsed = TimeZoneIdentifier::try_from(b"America/New_York".as_slice()).unwrap();
    assert_eq!(built.to_string(), parsed.to_string());
}

#[test]
fn tzid_new_names_a_zone_that_resolves_back() {
    let built = TimeZoneIdentifier::new(Tz::Europe__Berlin);
    assert_eq!(built.as_str(), "Europe/Berlin");
    assert_eq!(built.resolve(), Some(Tz::Europe__Berlin));
}

#[test]
fn altrep_new_matches_the_parsed_equivalent() {
    let built = Altrep::new(Uri::parse("cid:part1.0001@example.org").unwrap());
    let parsed = Altrep::try_from(b"\"cid:part1.0001@example.org\"".as_slice()).unwrap();
    assert_eq!(built.to_string(), parsed.to_string());
}

#[test]
fn common_name_new_matches_the_parsed_equivalent() {
    let built = CommonName::new(Text::from("John Smith"));
    let parsed = CommonName::try_from(b"John Smith".as_slice()).unwrap();
    assert_eq!(built.to_string(), parsed.to_string());
}

#[test]
fn delegators_new_matches_the_parsed_equivalent() {
    let addr =
        CalendarUserAddress::new(Uri::parse("mailto:jsmith@example.com").unwrap()).unwrap();
    let built = Delegators::new(vec![addr]);
    let parsed = Delegators::try_from(b"\"mailto:jsmith@example.com\"".as_slice()).unwrap();
    assert_eq!(built.to_string(), parsed.to_string());
}

#[test]
fn delegatees_new_matches_the_parsed_equivalent() {
    let addr = CalendarUserAddress::new(Uri::parse("mailto:jdoe@example.com").unwrap()).unwrap();
    let built = Delegatees::new(vec![addr]);
    let parsed = Delegatees::try_from(b"\"mailto:jdoe@example.com\"".as_slice()).unwrap();
    assert_eq!(built.to_string(), parsed.to_string());
}

#[test]
fn directory_entry_reference_new_matches_the_parsed_equivalent() {
    let built = DirectoryEntryReference::new(
        Uri::parse("ldap://example.com:6666/o=ABC%20Industries").unwrap(),
    );
    let parsed = DirectoryEntryReference::try_from(
        b"\"ldap://example.com:6666/o=ABC%20Industries\"".as_slice(),
    )
    .unwrap();
    assert_eq!(built.to_string(), parsed.to_string());
}

#[test]
fn fmttype_new_matches_the_parsed_equivalent() {
    let built = Fmttype::new(MediaType::new("application", "msword"));
    let parsed = Fmttype::try_from(b"application/msword".as_slice()).unwrap();
    assert_eq!(built.to_string(), parsed.to_string());
}

#[test]
fn language_new_matches_the_parsed_equivalent() {
    let built = Language::new("en-US").unwrap();
    let parsed = Language::try_from(b"en-US".as_slice()).unwrap();
    assert_eq!(built.to_string(), parsed.to_string());
}

#[test]
fn language_new_rejects_a_malformed_tag() {
    assert!(matches!(Language::new(""), Err(ParamError::Language)));
}

#[test]
fn member_new_matches_the_parsed_equivalent() {
    let addr =
        CalendarUserAddress::new(Uri::parse("mailto:ietf-calsch@example.org").unwrap()).unwrap();
    let built = Member::new(vec![addr]);
    let parsed = Member::try_from(b"\"mailto:ietf-calsch@example.org\"".as_slice()).unwrap();
    assert_eq!(built.to_string(), parsed.to_string());
}

#[test]
fn rsvp_new_matches_the_parsed_equivalent() {
    let built = Rsvp::new(true);
    let parsed = Rsvp::try_from(b"TRUE".as_slice()).unwrap();
    assert_eq!(built.to_string(), parsed.to_string());
}

#[test]
fn sent_by_new_matches_the_parsed_equivalent() {
    let addr =
        CalendarUserAddress::new(Uri::parse("mailto:jsmith@example.com").unwrap()).unwrap();
    let built = SentBy::new(addr);
    let parsed = SentBy::try_from(b"\"mailto:jsmith@example.com\"".as_slice()).unwrap();
    assert_eq!(built.to_string(), parsed.to_string());
}

#[test]
fn common_name_with_a_delimiter_is_written_quoted() {
    let cn = CommonName::try_from(b"\"Smith, John\"".as_slice()).unwrap();
    assert_eq!(cn.to_string(), "\"Smith, John\"");
}

#[test]
fn address_lists_need_every_piece_quoted() {
    let two = Member::try_from(b"\"mailto:a@example.com\",\"mailto:b@example.com\"".as_slice())
        .unwrap();
    assert_eq!(two.value().len(), 2);
    assert_eq!(two.to_string(), "\"mailto:a@example.com\",\"mailto:b@example.com\"");
    assert!(matches!(
        Member::try_from(b"\"mailto:a@example.com\",mailto:b@example.com".as_slice()),
        Err(ParamError::QuotedString)
    ));
    assert!(matches!(Altrep::try_from(b"cid:x".as_slice()), Err(ParamError::QuotedString)));
    assert!(matches!(Altrep::try_from(b"\"no scheme\"".as_slice()), Err(ParamError::Value(_))));
}

#[test]
fn keyword_params_fall_back_to_x_name_and_iana() {
    assert!(matches!(Fbtype::try_from(b"BUSY-TENTATIVE".as_slice()), Ok(Fbtype::BusyTentative)));
    assert!(matches!(Fbtype::try_from(b"x-mine".as_slice()), Ok(Fbtype::X(_))));
    assert!(matches!(Fbtype::try_from(b"busy".as_slice()), Ok(Fbtype::Iana(_))));
    assert!(matches!(ValueDataType::try_from(b"DATE-TIME".as_slice()), Ok(ValueDataType::DateTime)));
    assert!(matches!(ValueDataType::try_from(b"X-THING".as_slice()), Ok(ValueDataType::XName(_))));
    assert_eq!(ValueDataType::try_from(b"UTC-OFFSET".as_slice()).unwrap().to_string(), "UTC-OFFSET");
}

#[test]
fn participation_status_routes_todo_only_values() {
    assert!(matches!(
        ParticipationStatus::try_from(b"COMPLETED".as_slice()),
        Ok(ParticipationStatus::Todo(PartStatTodo::Completed))
    ));
    assert!(matches!(
        ParticipationStatus::try_from(b"ACCEPTED".as_slice()),
        Ok(ParticipationStatus::Event(PartStatEvent::Accepted))
    ));
    assert!(matches!(
        ParticipationStatus::try_from(b"X-MAYBE".as_slice()),
        Ok(ParticipationStatus::X(_))
    ));
    assert!(matches!(
        ParticipationStatus::try_from(b"WAITING".as_slice()),
        Ok(ParticipationStatus::Event(PartStatEvent::Iana(_)))
    ));
}

#[test]
fn display_and_feature_lists_round_trip() {
    let d = ImageDisplay::try_from(b"BADGE,THUMBNAIL".as_slice()).unwrap();
    assert!(matches!(d.value(), [ImageDisplayValue::Badge, ImageDisplayValue::Thumbnail]));
    assert_eq!(d.to_string(), "BADGE,THUMBNAIL");
    let f = Feature::new(vec![FeatureValue::Phone, FeatureValue::Moderator]);
    assert_eq!(f.to_string(), "PHONE,MODERATOR");
}
