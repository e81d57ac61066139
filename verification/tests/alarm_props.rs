use cratical::properties::component::alarm_ext::{Proximity, ProximityEnum};
use cratical::properties::component::alarms::{Action, ActionEnum, Repeat};
use cratical::properties::component::availability::BusyType;
use cratical::values::{Ical, Integer};

#[test]
fn proximity_parses_and_displays_the_known_values() {
    for raw in ["ARRIVE", "DEPART", "CONNECT", "DISCONNECT"] {
        let line = format!("PROXIMITY:{raw}");
        let proximity = Proximity::try_from(line.as_bytes()[9..].as_ref()).unwrap();
        assert_eq!(proximity.to_string(), line);
    }
}

#[test]
fn proximity_falls_back_to_xname_and_iana() {
    let xname = Proximity::try_from(b":X-CUSTOM".as_slice()).unwrap();
    assert_eq!(xname.to_string(), "PROXIMITY:X-CUSTOM");
    assert!(matches!(xname.value(), ProximityEnum::XName(_)));

    let iana = Proximity::try_from(b":SOME-IANA-VALUE".as_slice()).unwrap();
    assert_eq!(iana.to_string(), "PROXIMITY:SOME-IANA-VALUE");
    assert!(matches!(iana.value(), ProximityEnum::Iana(_)));
}

#[test]
fn action_fixed_tokens() {
    assert!(matches!(ActionEnum::try_from(b"AUDIO".as_slice()), Ok(ActionEnum::Audio)));
    assert!(matches!(ActionEnum::try_from(b"DISPLAY".as_slice()), Ok(ActionEnum::Display)));
    assert!(matches!(ActionEnum::try_from(b"EMAIL".as_slice()), Ok(ActionEnum::Email)));
}

#[test]
fn action_x_name_and_iana() {
    assert!(matches!(ActionEnum::try_from(b"X-CUSTOM".as_slice()), Ok(ActionEnum::XName(_))));
    assert!(matches!(ActionEnum::try_from(b"PROCEDURE".as_slice()), Ok(ActionEnum::Iana(_))));
}

#[test]
fn action_new_matches_the_parsed_equivalent() {
    assert_eq!(Action::new(ActionEnum::Audio).to_string(), "ACTION:AUDIO");
}

#[test]
fn repeat_new_matches_the_parsed_equivalent() {
    assert_eq!(
        Repeat::new(Integer::new(4)).to_string(),
        Repeat::try_from(b":4".as_slice()).unwrap().to_string()
    );
}

#[test]
fn repeat_rejects_a_non_integer() {
    assert!(Repeat::try_from(b":four".as_slice()).is_err());
    assert!(Repeat::try_from(b":99999999999".as_slice()).is_err());
    assert_eq!(Repeat::try_from(b":-2".as_slice()).unwrap().to_string(), "REPEAT:-2");
}

#[test]
fn parses_and_displays_the_known_values() {
    for raw in ["BUSY", "BUSY-UNAVAILABLE", "BUSY-TENTATIVE"] {
        let line = format!("BUSYTYPE:{raw}");
        let busytype = BusyType::try_from(line.as_bytes()[8..].as_ref()).unwrap();
        assert_eq!(busytype.to_string(), line);
    }
}

#[test]
fn falls_back_to_xname_and_iana() {
    let xname = BusyType::try_from(b":X-CUSTOM".as_slice()).unwrap();
    assert_eq!(xname.to_string(), "BUSYTYPE:X-CUSTOM");

    let iana = BusyType::try_from(b":SOME-IANA-VALUE".as_slice()).unwrap();
    assert_eq!(iana.to_string(), "BUSYTYPE:SOME-IANA-VALUE");
}
