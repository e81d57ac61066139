use cratical::ast::lexer::Lexer;
use cratical::ast::parser::Parser;
use cratical::ast::property::Property;
use cratical::calendar::{Calendar, Component};
use cratical::components::ComponentError;
use cratical::properties::component::alarms::ActionEnum;
use cratical::properties::{ParseError, PropertyError};
use cratical::values::Ical;

fn parse(src: &[u8]) -> Result<Calendar, ParseError> {
    let tokens = Lexer::new(src).scan().unwrap();
    Parser::new(tokens).calendar()
}

const MINIMAL_EVENT: &[u8] = b"BEGIN:VCALENDAR\r\nPRODID:-//example//EN\r\nVERSION:2.0\r\nBEGIN:VEVENT\r\nUID:123@example.com\r\nDTSTAMP:19970901T130000Z\r\nDTSTART:19970903T163000Z\r\nEND:VEVENT\r\nEND:VCALENDAR\r\n";

#[test]
fn parses_a_minimal_calendar_with_one_event() {
    let cal = parse(MINIMAL_EVENT).unwrap();
    assert_eq!(cal.components().len(), 1);
}

#[test]
fn rejects_mismatched_begin_end() {
    let src = b"BEGIN:VCALENDAR\r\nPRODID:-//example//EN\r\nVERSION:2.0\r\nBEGIN:VEVENT\r\nUID:123@example.com\r\nDTSTAMP:19970901T130000Z\r\nDTSTART:19970903T163000Z\r\nEND:VEVENT\r\nEND:VJOURNAL\r\n";
    assert!(matches!(parse(src), Err(ParseError::MismatchedEnd)));
}

#[test]
fn captures_an_unrecognized_top_level_component_instead_of_erroring() {
    let src = b"BEGIN:VCALENDAR\r\nPRODID:-//example//EN\r\nVERSION:2.0\r\nBEGIN:X-FOO\r\nUID:1234\r\nEND:X-FOO\r\nBEGIN:VEVENT\r\nUID:123@example.com\r\nDTSTAMP:19970901T130000Z\r\nDTSTART:19970903T163000Z\r\nEND:VEVENT\r\nEND:VCALENDAR\r\n";
    let cal = parse(src).unwrap();
    assert_eq!(cal.components().len(), 2);

    let Component::Unknown(unknown) = &cal.components()[0] else {
        panic!("expected the first component to be Unknown");
    };
    assert_eq!(unknown.name(), "X-FOO");
    assert_eq!(unknown.lines(), ["UID:1234"]);
    assert!(unknown.components().is_empty());

    assert!(matches!(cal.components()[1], Component::Event(_)));
}

#[test]
fn unrecognized_top_level_component_preserves_components_nested_inside_it() {
    let src = b"BEGIN:VCALENDAR\r\nPRODID:-//example//EN\r\nVERSION:2.0\r\nBEGIN:X-OUTER\r\nBEGIN:X-INNER\r\nX-PROP:value\r\nEND:X-INNER\r\nEND:X-OUTER\r\nEND:VCALENDAR\r\n";
    let cal = parse(src).unwrap();
    assert_eq!(cal.components().len(), 1);

    let Component::Unknown(outer) = &cal.components()[0] else {
        panic!("expected the component to be Unknown");
    };
    assert_eq!(outer.name(), "X-OUTER");
    assert!(outer.lines().is_empty());
    assert_eq!(outer.components().len(), 1);
    assert_eq!(outer.components()[0].name(), "X-INNER");
    assert_eq!(outer.components()[0].lines(), ["X-PROP:value"]);
}

#[test]
fn rejects_mismatched_begin_end_inside_an_unrecognized_component() {
    let src = b"BEGIN:VCALENDAR\r\nPRODID:-//example//EN\r\nVERSION:2.0\r\nBEGIN:X-FOO\r\nEND:X-BAR\r\nEND:VCALENDAR\r\n";
    assert!(matches!(parse(src), Err(ParseError::MismatchedEnd)));
}

#[test]
fn rejects_a_begin_that_is_not_vcalendar() {
    let src = b"BEGIN:VEVENT\r\nEND:VEVENT\r\n";
    assert!(matches!(parse(src), Err(ParseError::UnknownComponent)));
}

#[test]
fn requires_at_least_one_component() {
    let src = b"BEGIN:VCALENDAR\r\nPRODID:-//example//EN\r\nVERSION:2.0\r\nEND:VCALENDAR\r\n";
    assert!(parse(src).is_err());
}

#[test]
fn parses_two_sequential_calendar_objects_from_one_stream() {
    let mut src = MINIMAL_EVENT.to_vec();
    src.extend_from_slice(MINIMAL_EVENT);
    let tokens = Lexer::new(&src).scan().unwrap();
    let mut parser = Parser::new(tokens);
    assert!(parser.calendar().is_ok());
    assert!(parser.calendar().is_ok());
}

#[test]
fn calendar_display_round_trips_a_minimal_calendar() {
    let src = b"BEGIN:VCALENDAR\r\nPRODID:-//example//EN\r\nVERSION:2.0\r\nBEGIN:VEVENT\r\nUID:123@example.com\r\nDTSTAMP:19970901T130000Z\r\nDTSTART:19970903T163000Z\r\nEND:VEVENT\r\nEND:VCALENDAR\r\n";
    let calendar = Calendar::parse(src).unwrap();
    assert_eq!(
        calendar.to_string(),
        "BEGIN:VCALENDAR\r\nPRODID:-//example//EN\r\nVERSION:2.0\r\nBEGIN:VEVENT\r\nDTSTAMP:19970901T130000Z\r\nUID:123@example.com\r\nDTSTART:19970903T163000Z\r\nEND:VEVENT\r\nEND:VCALENDAR\r\n"
    );
}

// The to-do with an alarm of RFC 5545 §4, with its folded ATTACH line.
const TODO_WITH_ALARM: &[u8] = b"BEGIN:VCALENDAR\r\nPRODID:-//ABC Corporation//NONSGML My Product//EN\r\nVERSION:2.0\r\nBEGIN:VTODO\r\nDTSTAMP:19980130T134500Z\r\nSEQUENCE:2\r\nUID:uid4@example.com\r\nORGANIZER:mailto:unclesam@example.com\r\nATTENDEE;PARTSTAT=ACCEPTED:mailto:jqpublic@example.com\r\nDUE:19980415T000000\r\nSTATUS:NEEDS-ACTION\r\nSUMMARY:Submit Income Taxes\r\nBEGIN:VALARM\r\nACTION:AUDIO\r\nTRIGGER:19980403T120000Z\r\nATTACH;FMTTYPE=audio/basic:http://example.com/pub/audio-\r\n files/ssbanner.aud\r\nREPEAT:4\r\nDURATION:PT1H\r\nEND:VALARM\r\nEND:VTODO\r\nEND:VCALENDAR\r\n";

#[test]
fn calendar_display_output_of_a_todo_with_alarm_reparses_successfully() {
    let original = Calendar::parse(TODO_WITH_ALARM).unwrap();
    let rendered = original.to_string();

    let reparsed = Calendar::parse(rendered.as_bytes())
        .unwrap_or_else(|e| panic!("rendered output failed to reparse: {e:?}\n---\n{rendered}"));

    assert_eq!(reparsed.components().len(), 1);
    let Component::Todo(todo) = &reparsed.components()[0] else {
        panic!("expected a VTODO");
    };
    assert_eq!(todo.uid().value().as_str(), "uid4@example.com");
    assert_eq!(todo.alarms().len(), 1);
    assert!(matches!(todo.alarms()[0].action().value(), ActionEnum::Audio));
}

// The group meeting of RFC 5545 §4, with its VTIMEZONE.
const GROUP_MEETING: &[u8] = b"BEGIN:VCALENDAR\r\nPRODID:-//RDU Software//NONSGML HandCal//EN\r\nVERSION:2.0\r\nBEGIN:VTIMEZONE\r\nTZID:America/New_York\r\nBEGIN:STANDARD\r\nDTSTART:19981025T020000\r\nTZOFFSETFROM:-0400\r\nTZOFFSETTO:-0500\r\nTZNAME:EST\r\nEND:STANDARD\r\nBEGIN:DAYLIGHT\r\nDTSTART:19990404T020000\r\nTZOFFSETFROM:-0500\r\nTZOFFSETTO:-0400\r\nTZNAME:EDT\r\nEND:DAYLIGHT\r\nEND:VTIMEZONE\r\nBEGIN:VEVENT\r\nDTSTAMP:19980309T231000Z\r\nUID:guid-1.example.com\r\nORGANIZER;ROLE=CHAIR:mailto:mrbig@example.com\r\nATTENDEE;RSVP=TRUE;ROLE=REQ-PARTICIPANT;CUTYPE=GROUP:\r\n mailto:employee-A@example.com\r\nDESCRIPTION:Project XYZ Review Meeting\r\nCATEGORIES:MEETING\r\nCLASS:PUBLIC\r\nCREATED:19980309T130000Z\r\nSUMMARY:XYZ Project Review\r\nDTSTART;TZID=America/New_York:19980312T083000\r\nDTEND;TZID=America/New_York:19980312T093000\r\nLOCATION:1CP Conference Room 4350\r\nEND:VEVENT\r\nEND:VCALENDAR\r\n";

#[test]
fn calendar_display_output_of_a_timezone_meeting_reparses_successfully() {
    let original = Calendar::parse(GROUP_MEETING).unwrap();
    let rendered = original.to_string();

    let reparsed = Calendar::parse(rendered.as_bytes())
        .unwrap_or_else(|e| panic!("rendered output failed to reparse: {e:?}\n---\n{rendered}"));

    assert_eq!(reparsed.components().len(), 2);
    let Component::Timezone(tz) = &reparsed.components()[0] else {
        panic!("expected a VTIMEZONE");
    };
    assert_eq!(tz.standardc().len(), 1);
    assert_eq!(tz.daylightc().len(), 1);

    let Component::Event(event) = &reparsed.components()[1] else {
        panic!("expected a VEVENT");
    };
    assert_eq!(event.uid().value().as_str(), "guid-1.example.com");
    assert_eq!(event.attendee().len(), 1);
}

#[test]
fn calendar_parse_rejects_anything_after_the_object() {
    let mut src = MINIMAL_EVENT.to_vec();
    src.extend_from_slice(MINIMAL_EVENT);
    assert!(Calendar::parse(&src).is_err());
    let calendars = Calendar::parse_stream(&src).unwrap();
    assert_eq!(calendars.len(), 2);
}

#[test]
fn parser_refuses_a_singleton_property_given_twice_and_a_misplaced_one() {
    let src = b"BEGIN:VCALENDAR\r\nPRODID:-//example//EN\r\nVERSION:2.0\r\nBEGIN:VEVENT\r\nUID:1@example.com\r\nUID:2@example.com\r\nDTSTAMP:19970901T130000Z\r\nDTSTART:19970903T163000Z\r\nEND:VEVENT\r\nEND:VCALENDAR\r\n";
    assert!(matches!(parse(src), Err(ParseError::Property(PropertyError::DuplicateProperty("UID")))));
    let src = b"BEGIN:VCALENDAR\r\nPRODID:-//example//EN\r\nVERSION:2.0\r\nBEGIN:VEVENT\r\nUID:1@example.com\r\nDTSTAMP:19970901T130000Z\r\nDTSTART:19970903T163000Z\r\nTZOFFSETTO:-0500\r\nEND:VEVENT\r\nEND:VCALENDAR\r\n";
    assert!(matches!(parse(src), Err(ParseError::Property(PropertyError::UnexpectedProperty))));
}

#[test]
fn parser_checks_a_component_at_its_end() {
    let src = b"BEGIN:VCALENDAR\r\nPRODID:-//example//EN\r\nVERSION:2.0\r\nBEGIN:VEVENT\r\nUID:1@example.com\r\nDTSTART:19970903T163000Z\r\nEND:VEVENT\r\nEND:VCALENDAR\r\n";
    assert!(matches!(parse(src), Err(ParseError::Component(ComponentError::MissingField("DTSTAMP")))));
    let src = b"BEGIN:VCALENDAR\r\nPRODID:-//example//EN\r\nVERSION:2.0\r\nBEGIN:VJOURNAL\r\nUID:1@example.com\r\nDTSTAMP:19970901T130000Z\r\nBEGIN:VALARM\r\nACTION:AUDIO\r\nTRIGGER:-PT15M\r\nEND:VALARM\r\nEND:VJOURNAL\r\nEND:VCALENDAR\r\n";
    assert!(matches!(parse(src), Err(ParseError::UnexpectedComponent("VALARM"))));
}

#[test]
fn property_parse_dispatches_on_the_name() {
    assert!(matches!(Property::parse(b"DTSTART", b":19970903T163000Z"), Ok(Property::DateTimeStart(_))));
    assert!(matches!(Property::parse(b"X-WR-CALNAME", b":Work"), Ok(Property::Xprop(_))));
    assert!(matches!(Property::parse(b"FOO", b":bar"), Ok(Property::Iana(_))));
    assert!(matches!(Property::parse(b"PRIORITY", b":10"), Err(_)));
    assert!(matches!(Property::parse(b"SUMMARY", b"no colon"), Err(ParseError::Parameter { .. })));
}

// The LINK examples of RFC 9253 §8.2, with their values folded across
// several physical lines.
const LINK_EXAMPLES: &[u8] = b"BEGIN:VCALENDAR\r\nPRODID:-//example//EN\r\nVERSION:2.0\r\nBEGIN:VEVENT\r\nDTSTAMP:20230101T000000Z\r\nUID:links-rfc-9253-section-8.2\r\nDTSTART:20230102T100000Z\r\nLINK;LINKREL=SOURCE;LABEL=Venue;VALUE=URI:\r\n https://example.com/events\r\nLINK;LINKREL=\"https://example.com/linkrel/derivedFrom\";\r\n VALUE=URI:\r\n https://example.com/tasks/01234567-abcd1234.ics\r\nLINK;LINKREL=\"https://example.com/linkrel/costStructure\";\r\n VALUE=XML-REFERENCE:\r\n https://example.com/xmlDocs/bidFramework.xml\r\n #xpointer(descendant::CostStruc/range-to(\r\n following::CostStrucEND[1]))\r\nEND:VEVENT\r\nBEGIN:VEVENT\r\nDTSTAMP:20230101T000000Z\r\nUID:links-rfc-9253-uid\r\nDTSTART:20230102T100000Z\r\nLINK;LINKREL=REFERENCE;VALUE=UID:links-rfc-9253-section-8.2\r\nEND:VEVENT\r\nEND:VCALENDAR\r\n";

#[test]
fn link_falls_back_to_iana_and_unfolds_across_rfc_9253_examples() {
    let calendar = Calendar::parse(LINK_EXAMPLES).unwrap();
    let components = calendar.components();
    assert_eq!(components.len(), 2);

    let Component::Event(links) = &components[0] else {
        panic!("expected first component to be a VEVENT");
    };
    assert_eq!(links.uid().value().as_str(), "links-rfc-9253-section-8.2");
    assert_eq!(links.iana().len(), 3);

    assert_eq!(links.iana()[0].params().iana()[0].as_str(), "LINKREL=SOURCE");
    assert_eq!(links.iana()[0].params().iana()[1].as_str(), "LABEL=Venue");
    assert_eq!(links.iana()[0].params().iana()[2].as_str(), "VALUE=URI");
    assert_eq!(links.iana()[0].value().as_str(), "https://example.com/events");
    assert_eq!(
        links.iana()[0].to_string(),
        "LINK;LINKREL=SOURCE;LABEL=Venue;VALUE=URI:https://example.com/events"
    );

    assert_eq!(
        links.iana()[1].params().iana()[0].as_str(),
        r#"LINKREL="https://example.com/linkrel/derivedFrom""#
    );
    assert_eq!(links.iana()[1].params().iana()[1].as_str(), "VALUE=URI");
    assert_eq!(
        links.iana()[1].value().as_str(),
        "https://example.com/tasks/01234567-abcd1234.ics"
    );

    assert_eq!(
        links.iana()[2].params().iana()[0].as_str(),
        r#"LINKREL="https://example.com/linkrel/costStructure""#
    );
    assert_eq!(links.iana()[2].params().iana()[1].as_str(), "VALUE=XML-REFERENCE");
    assert_eq!(
        links.iana()[2].value().as_str(),
        "https://example.com/xmlDocs/bidFramework.xml#xpointer(descendant::CostStruc/range-to(following::CostStrucEND[1]))"
    );

    let Component::Event(reference) = &components[1] else {
        panic!("expected second component to be a VEVENT");
    };
    assert_eq!(reference.uid().value().as_str(), "links-rfc-9253-uid");
    assert_eq!(reference.iana().len(), 1);
    assert_eq!(reference.iana()[0].params().iana()[0].as_str(), "LINKREL=REFERENCE");
    assert_eq!(reference.iana()[0].params().iana()[1].as_str(), "VALUE=UID");
    assert_eq!(reference.iana()[0].value().as_str(), "links-rfc-9253-section-8.2");
}

#[test]
fn accepts_a_missing_line_break_after_the_last_end_at_the_end_of_input() {
    let src = b"BEGIN:VCALENDAR\r\nPRODID:-//example//EN\r\nVERSION:2.0\r\nBEGIN:VEVENT\r\nUID:123@example.com\r\nDTSTAMP:19970901T130000Z\r\nDTSTART:19970903T163000Z\r\nEND:VEVENT\r\nEND:VCALENDAR";
    let tokens = Lexer::new(src).scan().unwrap();
    let mut p = Parser::new(tokens);
    assert!(p.calendar().is_ok());
    assert_eq!(p.is_at_end().unwrap(), true);
}

#[test]
fn rejects_an_unknown_component_nested_in_an_event() {
    let src = b"BEGIN:VCALENDAR\r\nPRODID:-//example//EN\r\nVERSION:2.0\r\nBEGIN:VEVENT\r\nUID:1@example.com\r\nDTSTAMP:19970901T130000Z\r\nDTSTART:19970903T163000Z\r\nBEGIN:X-SUB\r\nEND:X-SUB\r\nEND:VEVENT\r\nEND:VCALENDAR\r\n";
    assert!(matches!(parse(src), Err(ParseError::UnknownComponent)));
}

#[test]
fn rejects_a_calendar_closed_by_another_name_after_an_unknown_component() {
    let src = b"BEGIN:VCALENDAR\r\nPRODID:-//example//EN\r\nVERSION:2.0\r\nBEGIN:X-FOO\r\nUID:1234\r\nEND:X-FOO\r\nEND:X-CAL\r\n";
    assert!(matches!(parse(src), Err(ParseError::MismatchedEnd)));
}
