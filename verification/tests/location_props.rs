use cratical::properties::component::location::{LocationType, Name, NameBuilder};
use cratical::values::{Ical, Text};

#[test]
fn name_parses_and_displays() {
    let line = "NAME:Company Vacation";
    let name = Name::try_from(line.as_bytes()[4..].as_ref()).unwrap();
    assert_eq!(name.to_string(), line);
}

#[test]
fn location_type_parses_a_single_value() {
    let line = "LOCATION-TYPE:HOTEL";
    let loctype = LocationType::try_from(line.as_bytes()[13..].as_ref()).unwrap();
    assert_eq!(loctype.to_string(), line);
}

#[test]
fn location_type_parses_multiple_comma_separated_values() {
    let line = "LOCATION-TYPE:HOTEL,RESTAURANT";
    let loctype = LocationType::try_from(line.as_bytes()[13..].as_ref()).unwrap();
    assert_eq!(loctype.to_string(), line);
}

#[test]
fn name_builder_round_trips() {
    let name = NameBuilder::new(Text::from("Company Vacation")).build();
    assert_eq!(name.to_string(), "NAME:Company Vacation");
}

#[test]
fn location_type_new_matches_the_parsed_equivalent() {
    let loctype = LocationType::new(vec![Text::from("HOTEL"), Text::from("RESTAURANT")]);
    assert_eq!(loctype.to_string(), "LOCATION-TYPE:HOTEL,RESTAURANT");
}
