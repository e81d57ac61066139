use cratical::properties::calendar::{CalendarScale, Method, ProductIdentifier, Version};
use cratical::values::{Ical, Text};

#[test]
fn calendar_simple_constructors_match_their_parsed_equivalent() {
    assert_eq!(
        CalendarScale::new(Text::from("GREGORIAN")).to_string(),
        CalendarScale::try_from(b":GREGORIAN".as_slice()).unwrap().to_string()
    );
    assert_eq!(
        Method::new(Text::from("REQUEST")).to_string(),
        Method::try_from(b":REQUEST".as_slice()).unwrap().to_string()
    );
    assert_eq!(
        ProductIdentifier::new(Text::from("-//ABC//EN")).to_string(),
        ProductIdentifier::try_from(b":-//ABC//EN".as_slice()).unwrap().to_string()
    );
    assert_eq!(
        Version::new(Text::from("2.0")).to_string(),
        Version::try_from(b":2.0".as_slice()).unwrap().to_string()
    );
}
