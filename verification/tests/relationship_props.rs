use cratical::params::{CommonName, PartStatEvent, ParticipationStatus, Rsvp};
use cratical::properties::component::relationship::{
    Attendee, AttendeeBuilder, ContactBuilder, Organizer, OrganizerBuilder, RelatedTo, Uid,
    UniformResourceLocator,
};
use cratical::values::{CalendarUserAddress, Ical, Text, Uri};

fn cal_address(s: &str) -> CalendarUserAddress {
    CalendarUserAddress::new(Uri::parse(s).unwrap()).unwrap()
}

#[test]
fn attendee_cn_decodes_rfc_6868_caret_sequences() {
    let attendee =
        Attendee::try_from(b";CN=George Herman ^'Babe^' Ruth:mailto:babe@example.com".as_slice())
            .unwrap();
    assert_eq!(
        format!("{:?}", attendee.common_name().unwrap()),
        r#"CommonName(Text("George Herman \"Babe\" Ruth"))"#
    );
}

#[test]
fn attendee_cn_still_accepts_quoted_form() {
    let attendee = Attendee::try_from(br#";CN="Jane Doe":mailto:jdoe@example.com"#.as_slice()).unwrap();
    assert_eq!(format!("{:?}", attendee.common_name().unwrap()), r#"CommonName(Text("Jane Doe"))"#);
}

#[test]
fn related_to_reltype_falls_back_to_iana_for_rfc_9253_values() {
    let plain =
        RelatedTo::try_from(b":jsmith.part7.19960817T083000.xyzMail@example.com".as_slice()).unwrap();
    assert!(plain.params().rt().is_none());
    assert_eq!(plain.value().as_str(), "jsmith.part7.19960817T083000.xyzMail@example.com");

    let by_uid =
        RelatedTo::try_from(b";VALUE=UID:19960401-080045-4000F192713-0052@example.com".as_slice())
            .unwrap();
    assert!(by_uid.params().rt().is_none());
    assert_eq!(by_uid.params().shared().iana()[0].as_str(), "VALUE=UID");
    assert_eq!(by_uid.value().as_str(), "19960401-080045-4000F192713-0052@example.com");

    let start_to_finish = RelatedTo::try_from(
        b";VALUE=URI;RELTYPE=STARTTOFINISH:https://example.com/caldav/user/jb/cal/19960401-080045-4000F192713.ics"
            .as_slice(),
    )
    .unwrap();
    assert_eq!(format!("{:?}", start_to_finish.params().rt()), r#"Some(Iana(Text("STARTTOFINISH")))"#);
    assert_eq!(start_to_finish.params().shared().iana()[0].as_str(), "VALUE=URI");
    assert_eq!(
        start_to_finish.value().as_str(),
        "https://example.com/caldav/user/jb/cal/19960401-080045-4000F192713.ics"
    );
}

#[test]
fn related_to_gap_param_falls_back_to_shared_passthrough() {
    let related = RelatedTo::try_from(b";VALUE=UID;RELTYPE=STARTTOSTART;GAP=P1W:1".as_slice()).unwrap();
    assert_eq!(format!("{:?}", related.params().rt()), r#"Some(Iana(Text("STARTTOSTART")))"#);
    assert_eq!(related.params().shared().iana()[0].as_str(), "VALUE=UID");
    assert_eq!(related.params().shared().iana()[1].as_str(), "GAP=P1W");
    assert_eq!(related.value().as_str(), "1");
}

#[test]
fn attendee_delegation_params_parse_multi_value_quoted_lists() {
    let delegated_to = Attendee::try_from(
        br#";DELEGATED-TO="mailto:jdoe@example.com","mailto:jqpublic@example.com":mailto:jsmith@example.com"#
            .as_slice(),
    )
    .unwrap();
    assert_eq!(
        delegated_to.delegatees().unwrap().to_string(),
        "\"mailto:jdoe@example.com\",\"mailto:jqpublic@example.com\""
    );
    let member = Attendee::try_from(
        br#";MEMBER="mailto:projectA@example.com","mailto:projectB@example.com":mailto:janedoe@example.com"#
            .as_slice(),
    )
    .unwrap();
    assert_eq!(member.member().unwrap().value().len(), 2);
}

#[test]
fn attendee_display_round_trips_the_content_line() {
    let attendee = Attendee::try_from(
        b";ROLE=REQ-PARTICIPANT;PARTSTAT=ACCEPTED;CN=Jane Doe:mailto:jdoe@example.com".as_slice(),
    )
    .unwrap();
    assert_eq!(
        attendee.to_string(),
        "ATTENDEE;PARTSTAT=ACCEPTED;CN=Jane Doe;ROLE=REQ-PARTICIPANT:mailto:jdoe@example.com"
    );
}

#[test]
fn organizer_display_round_trips_the_content_line() {
    let organizer = Organizer::try_from(b";CN=John Smith:mailto:jsmith@example.com".as_slice()).unwrap();
    assert_eq!(organizer.to_string(), "ORGANIZER;CN=John Smith:mailto:jsmith@example.com");
}

#[test]
fn attendee_builder_round_trips_the_content_line() {
    let attendee = AttendeeBuilder::new(cal_address("mailto:jdoe@example.com"))
        .status(ParticipationStatus::Event(PartStatEvent::Accepted))
        .common_name(CommonName::new(Text::from("Jane Doe")))
        .build();
    assert_eq!(attendee.to_string(), "ATTENDEE;PARTSTAT=ACCEPTED;CN=Jane Doe:mailto:jdoe@example.com");
}

#[test]
fn organizer_builder_round_trips_the_content_line() {
    let organizer = OrganizerBuilder::new(cal_address("mailto:jsmith@example.com"))
        .common_name(CommonName::new(Text::from("John Smith")))
        .build();
    assert_eq!(organizer.to_string(), "ORGANIZER;CN=John Smith:mailto:jsmith@example.com");
}

#[test]
fn attendee_value_and_param_accessors_read_back_the_parsed_data() {
    let attendee = AttendeeBuilder::new(cal_address("mailto:jdoe@example.com"))
        .status(ParticipationStatus::Event(PartStatEvent::Accepted))
        .common_name(CommonName::new(Text::from("Jane Doe")))
        .rsvp(Rsvp::new(true))
        .build();
    assert_eq!(attendee.value().to_string(), "mailto:jdoe@example.com");
    assert!(matches!(attendee.status(), Some(ParticipationStatus::Event(PartStatEvent::Accepted))));
    assert_eq!(attendee.common_name().unwrap().to_string(), "Jane Doe");
    assert!(attendee.rsvp().is_some());
    assert!(attendee.language().is_none());
}

#[test]
fn organizer_value_and_param_accessors_read_back_the_parsed_data() {
    let organizer = OrganizerBuilder::new(cal_address("mailto:jsmith@example.com"))
        .common_name(CommonName::new(Text::from("John Smith")))
        .build();
    assert_eq!(organizer.value().to_string(), "mailto:jsmith@example.com");
    assert_eq!(organizer.common_name().unwrap().to_string(), "John Smith");
    assert!(organizer.sent_by().is_none());
}

#[test]
fn contact_builder_round_trips() {
    let contact = ContactBuilder::new(Text::from("Jim Dolittle, ABC Industries, +1-919-555-1234")).build();
    assert_eq!(contact.to_string(), "CONTACT:Jim Dolittle\\, ABC Industries\\, +1-919-555-1234");
}

#[test]
fn related_to_new_matches_the_parsed_equivalent() {
    let related = RelatedTo::new(Text::from("jsmith.part7.19960817T083000.xyzMail@example.com"), None);
    assert_eq!(related.to_string(), "RELATED-TO:jsmith.part7.19960817T083000.xyzMail@example.com");
}

#[test]
fn url_and_uid_new_match_the_parsed_equivalent() {
    assert_eq!(
        UniformResourceLocator::new(Uri::parse("http://example.com/pub/busy/jpublic-01.ifb").unwrap())
            .to_string(),
        "URL:http://example.com/pub/busy/jpublic-01.ifb"
    );
    assert_eq!(
        Uid::new(Text::from("19960401T080045Z-4000F192713-0052@example.com")).to_string(),
        "UID:19960401T080045Z-4000F192713-0052@example.com"
    );
}

#[test]
fn attendee_delegation_params_parse_single_value_quoted_lists() {
    let delegated_to = Attendee::try_from(
        br#";DELEGATED-TO="mailto:jdoe@example.com":mailto:jsmith@example.com"#.as_slice(),
    )
    .unwrap();
    let to = delegated_to.delegatees().unwrap().value();
    assert_eq!(to.len(), 1);
    assert_eq!(to[0].to_string(), "mailto:jdoe@example.com");

    let delegated_from = Attendee::try_from(
        br#";DELEGATED-FROM="mailto:jsmith@example.com":mailto:jdoe@example.com"#.as_slice(),
    )
    .unwrap();
    let from = delegated_from.delegators().unwrap().value();
    assert_eq!(from.len(), 1);
    assert_eq!(from[0].to_string(), "mailto:jsmith@example.com");

    let member = Attendee::try_from(
        br#";MEMBER="mailto:projectA@example.com":mailto:janedoe@example.com"#.as_slice(),
    )
    .unwrap();
    let members = member.member().unwrap().value();
    assert_eq!(members.len(), 1);
    assert_eq!(members[0].to_string(), "mailto:projectA@example.com");
}
