use cratical::calendar::{Calendar, CalendarBuilder, Component};
use cratical::components::availability::AvailabilityBuilder;
use cratical::components::event::EventBuilder;
use cratical::components::journal::JournalBuilder;
use cratical::components::todo::TodoBuilder;
use cratical::components::ComponentError;
use cratical::itip::{ItipError, StatusCode};
use cratical::properties::calendar::{Method, ProductIdentifier, Version};
use cratical::properties::component::change::{DateTimeStamp, Sequence};
use cratical::properties::component::datetime::DateTimeStartBuilder;
use cratical::properties::component::descriptive::{Status, StatusValue, SummaryBuilder};
use cratical::properties::component::relationship::{AttendeeBuilder, OrganizerBuilder, Uid};
use cratical::values::datetime::{DateOrDatetime, DateTime};
use cratical::values::{CalendarUserAddress, Integer, Text, Uri};

fn stamp() -> DateTimeStamp {
    DateTimeStamp::new(DateTime::try_from(b"19970901T130000Z".as_slice()).unwrap())
}

fn start() -> cratical::properties::component::datetime::DateTimeStart {
    DateTimeStartBuilder::new(DateOrDatetime::DateTime(DateTime::try_from(b"19970903T163000Z".as_slice()).unwrap()))
        .build()
}

fn address(s: &str) -> CalendarUserAddress {
    CalendarUserAddress::new(Uri::parse(s).unwrap()).unwrap()
}

fn calendar(method: &str, components: Vec<Component>) -> Result<Calendar, ComponentError> {
    let mut b = CalendarBuilder::new(
        ProductIdentifier::new(Text::from("-//example//EN")),
        Version::new(Text::from("2.0")),
    )
    .method(Method::new(Text::from(method)));
    for c in components {
        b = b.component(c);
    }
    b.build()
}

fn published_event(uid: &str) -> Component {
    let e = EventBuilder::new(stamp(), Uid::new(Text::from(uid)))
        .dtstart(start())
        .organizer(OrganizerBuilder::new(address("mailto:a@example.com")).build())
        .summary(SummaryBuilder::new(Text::from("Meeting")).build())
        .build(true)
        .unwrap();
    Component::from(e)
}

#[test]
fn itip_publish_accepts_a_complete_event() {
    assert!(calendar("PUBLISH", vec![published_event("1@example.com")]).is_ok());
}

#[test]
fn itip_publish_requires_an_organizer() {
    let e = EventBuilder::new(stamp(), Uid::new(Text::from("1@example.com")))
        .dtstart(start())
        .summary(SummaryBuilder::new(Text::from("Meeting")).build())
        .build(true)
        .unwrap();
    let r = calendar("PUBLISH", vec![Component::from(e)]);
    assert_eq!(
        r.unwrap_err(),
        ComponentError::Itip(ItipError::MissingProperty { method: "PUBLISH", component: "VEVENT", property: "ORGANIZER" })
    );
}

#[test]
fn itip_publish_prohibits_attendees() {
    let e = EventBuilder::new(stamp(), Uid::new(Text::from("1@example.com")))
        .dtstart(start())
        .organizer(OrganizerBuilder::new(address("mailto:a@example.com")).build())
        .summary(SummaryBuilder::new(Text::from("Meeting")).build())
        .attendee(AttendeeBuilder::new(address("mailto:b@example.com")).build())
        .build(true)
        .unwrap();
    assert_eq!(
        calendar("PUBLISH", vec![Component::from(e)]).unwrap_err(),
        ComponentError::Itip(ItipError::ProhibitedProperty { method: "PUBLISH", component: "VEVENT", property: "ATTENDEE" })
    );
}

#[test]
fn itip_request_rejects_a_draft_status_and_mismatched_uids() {
    let mk = |uid: &str, status: StatusValue| {
        Component::from(
            EventBuilder::new(stamp(), Uid::new(Text::from(uid)))
                .dtstart(start())
                .organizer(OrganizerBuilder::new(address("mailto:a@example.com")).build())
                .summary(SummaryBuilder::new(Text::from("Meeting")).build())
                .attendee(AttendeeBuilder::new(address("mailto:b@example.com")).build())
                .status(Status::new(status))
                .build(true)
                .unwrap(),
        )
    };
    assert_eq!(
        calendar("REQUEST", vec![mk("1@example.com", StatusValue::Cancelled)]).unwrap_err(),
        ComponentError::Itip(ItipError::InvalidStatus {
            method: "REQUEST",
            component: "VEVENT",
            allowed: "TENTATIVE/CONFIRMED"
        })
    );
    assert!(calendar("REQUEST", vec![mk("1@example.com", StatusValue::Tentative), mk("1@example.com", StatusValue::Confirmed)]).is_ok());
    assert_eq!(
        calendar("REQUEST", vec![mk("1@example.com", StatusValue::Tentative), mk("2@example.com", StatusValue::Confirmed)])
            .unwrap_err(),
        ComponentError::Itip(ItipError::InconsistentUid { method: "REQUEST", component: "VEVENT" })
    );
}

#[test]
fn itip_reply_needs_exactly_one_attendee() {
    let e = EventBuilder::new(stamp(), Uid::new(Text::from("1@example.com")))
        .organizer(OrganizerBuilder::new(address("mailto:a@example.com")).build())
        .attendee(AttendeeBuilder::new(address("mailto:b@example.com")).build())
        .attendee(AttendeeBuilder::new(address("mailto:c@example.com")).build())
        .build(true)
        .unwrap();
    assert_eq!(
        calendar("REPLY", vec![Component::from(e)]).unwrap_err(),
        ComponentError::Itip(ItipError::WrongCardinality {
            method: "REPLY",
            component: "VEVENT",
            property: "ATTENDEE",
            expected: "MUST occur exactly once"
        })
    );
}

#[test]
fn itip_add_counts_components_and_needs_a_positive_sequence() {
    assert_eq!(
        calendar("ADD", vec![published_event("1@example.com"), published_event("1@example.com")]).unwrap_err(),
        ComponentError::Itip(ItipError::ComponentCount { method: "ADD", component: "VEVENT", expected: "exactly one" })
    );
    let mk = |seq: Option<i32>| {
        let mut b = EventBuilder::new(stamp(), Uid::new(Text::from("1@example.com")))
            .dtstart(start())
            .organizer(OrganizerBuilder::new(address("mailto:a@example.com")).build())
            .summary(SummaryBuilder::new(Text::from("Meeting")).build());
        if let Some(n) = seq {
            b = b.seq(Sequence::new(Integer::new(n)));
        }
        Component::from(b.build(true).unwrap())
    };
    assert_eq!(
        calendar("ADD", vec![mk(None)]).unwrap_err(),
        ComponentError::Itip(ItipError::MissingProperty { method: "ADD", component: "VEVENT", property: "SEQUENCE" })
    );
    assert_eq!(
        calendar("ADD", vec![mk(Some(0))]).unwrap_err(),
        ComponentError::Itip(ItipError::SequenceMustBePositive { method: "ADD", component: "VEVENT" })
    );
    assert!(calendar("ADD", vec![mk(Some(1))]).is_ok());
}

#[test]
fn itip_rejects_mixed_types_and_unsupported_methods() {
    let todo = TodoBuilder::new(stamp(), Uid::new(Text::from("2@example.com"))).build().unwrap();
    assert_eq!(
        calendar("PUBLISH", vec![published_event("1@example.com"), Component::from(todo)]).unwrap_err(),
        ComponentError::Itip(ItipError::MixedComponentTypes("PUBLISH"))
    );
    let journal = JournalBuilder::new(stamp(), Uid::new(Text::from("3@example.com"))).build().unwrap();
    assert_eq!(
        calendar("REQUEST", vec![Component::from(journal)]).unwrap_err(),
        ComponentError::Itip(ItipError::UnsupportedMethod { method: "REQUEST", component: "VJOURNAL" })
    );
}

#[test]
fn itip_ignores_other_methods_and_availability() {
    let e = EventBuilder::new(stamp(), Uid::new(Text::from("1@example.com"))).dtstart(start()).build(true).unwrap();
    assert!(calendar("X-CUSTOM", vec![Component::from(e)]).is_ok());
    let e = EventBuilder::new(stamp(), Uid::new(Text::from("1@example.com"))).dtstart(start()).build(true).unwrap();
    let a = AvailabilityBuilder::new(stamp(), Uid::new(Text::from("4@example.com"))).build().unwrap();
    assert!(calendar("PUBLISH", vec![Component::from(e), Component::from(a)]).is_ok());
}

#[test]
fn status_descriptions_start_with_success_for_two_x_codes_only() {
    for c in [StatusCode::Success, StatusCode::SuccessForwarded, StatusCode::InvalidRule, StatusCode::ServiceUnavailable] {
        assert_eq!(c.description().starts_with("Success"), c.code().0 == 2);
    }
}
