use cratical::properties::{param_value, value_start, AltrepLanguageParams, Iana, SharedParams, Xprop};
use cratical::values::{Ical, Text};

#[test]
fn value_start_finds_first_unquoted_colon() {
    assert_eq!(value_start(b":VALUE").unwrap(), 0);
    assert_eq!(value_start(b";FOO=BAR:VALUE").unwrap(), 8);
}

#[test]
fn value_start_ignores_colon_inside_quotes() {
    let v = br#";ALTREP="cid:part1":the-real-value"#;
    let colon = value_start(v).unwrap();
    assert_eq!(&v[colon + 1..], b"the-real-value");
}

#[test]
fn value_start_errors_without_a_colon() {
    assert!(value_start(b"no colon here").is_err());
}

#[test]
fn shared_params_buckets_iana_and_xname() {
    let params = SharedParams::parse(b";SOME-IANA=1;X-CUSTOM=2".as_slice()).unwrap();
    assert_eq!(params.iana().len(), 1);
    assert_eq!(params.xname().len(), 1);
}

#[test]
fn shared_params_empty_is_fine() {
    let params = SharedParams::parse(b"".as_slice()).unwrap();
    assert!(params.iana().is_empty());
    assert!(params.xname().is_empty());
}

#[test]
fn altrep_language_params_parses_known_and_falls_back() {
    let params = AltrepLanguageParams::parse(
        br#";ALTREP="cid:part1.0001@example.org";LANGUAGE=en;X-EXTRA=1"#.as_slice(),
    )
    .unwrap();
    assert!(params.altrep().is_some());
    assert!(params.language().is_some());
    assert_eq!(params.shared().xname().len(), 1);
}

#[test]
fn param_value_decodes_rfc_6868_caret_sequences() {
    assert_eq!(param_value(b"CN=George Herman ^'Babe^' Ruth").unwrap(), b"George Herman \"Babe\" Ruth");
    assert_eq!(param_value(b"ALL=^^^'^n").unwrap(), b"^\"\n");
}

#[test]
fn xprop_decodes_rfc_6868_caret_sequences_in_its_params() {
    let xprop =
        Xprop::parse(b"X-PARAM", b";NEWLINE=^n;ALL=^^^'^n;UNKNOWN=^a^ ^asd:asd".as_slice()).unwrap();
    assert_eq!(xprop.params().iana()[0].as_str(), "NEWLINE=\n");
    assert_eq!(xprop.params().iana()[1].as_str(), "ALL=^\"\n");
    assert_eq!(xprop.params().iana()[2].as_str(), "UNKNOWN=^a^ ^asd");
}

#[test]
fn xprop_display_round_trips_the_content_line() {
    let xprop = Xprop::parse(b"X-WR-CALNAME", b":My Calendar".as_slice()).unwrap();
    assert_eq!(xprop.to_string(), "X-WR-CALNAME:My Calendar");
}

#[test]
fn shared_params_absorb_decodes_caret_sequences_in_unknown_params() {
    let params = SharedParams::parse(b";NEWLINE=^n;ALL=^^^'^n".as_slice()).unwrap();
    assert_eq!(params.iana()[0].as_str(), "NEWLINE=\n");
    assert_eq!(params.iana()[1].as_str(), "ALL=^\"\n");
}

#[test]
fn image_falls_back_to_iana_across_uri_and_binary_value_forms() {
    let uri = Iana::parse(
        b"IMAGE",
        b";VALUE=URI;DISPLAY=BADGE;FMTTYPE=image/png:http://example.com/images/party.png"
            .as_slice(),
    )
    .unwrap();
    assert_eq!(uri.params().iana()[0].as_str(), "VALUE=URI");
    assert_eq!(uri.params().iana()[1].as_str(), "DISPLAY=BADGE");
    assert_eq!(uri.params().iana()[2].as_str(), "FMTTYPE=image/png");
    assert_eq!(uri.value().as_str(), "http://example.com/images/party.png");

    let binary = Iana::parse(
        b"IMAGE",
        b";ENCODING=BASE64;VALUE=BINARY;FMTTYPE=image/png:iVBORw0KGgoAAAANSUhEUgAAAAEAAAABCAYAAAAfFcSJAAAACXBIWXMAAAAnAAAAJwEqCZFPAAAAGXRFWHRTb2Z0d2FyZQB3d3cuaW5rc2NhcGUub3Jnm+48GgAAAA1JREFUCJlj+P//PwMACPwC/oXNqzQAAAAASUVORK5CYII="
            .as_slice(),
    )
    .unwrap();
    assert_eq!(binary.params().iana()[0].as_str(), "ENCODING=BASE64");
    assert_eq!(binary.params().iana()[1].as_str(), "VALUE=BINARY");
    assert_eq!(binary.params().iana()[2].as_str(), "FMTTYPE=image/png");
    assert!(binary.value().as_str().starts_with("iVBORw0KGgo"));
}

#[test]
fn image_falls_back_to_iana_across_uri_binary_text_and_unknown_forms() {
    let uri = Iana::parse(b"IMAGE", b";VALUE=URI:https://example.com/a.png".as_slice()).unwrap();
    assert_eq!(uri.params().iana()[0].as_str(), "VALUE=URI");
    assert_eq!(uri.value().as_str(), "https://example.com/a.png");

    let binary = Iana::parse(b"IMAGE", b";ENCODING=BASE64;VALUE=BINARY:AP+A".as_slice()).unwrap();
    assert_eq!(binary.params().iana()[0].as_str(), "ENCODING=BASE64");
    assert_eq!(binary.params().iana()[1].as_str(), "VALUE=BINARY");
    assert_eq!(binary.value().as_str(), "AP+A");

    let text = Iana::parse(b"IMAGE", br";VALUE=TEXT:a\;b\,c".as_slice()).unwrap();
    assert_eq!(text.params().iana()[0].as_str(), "VALUE=TEXT");
    assert_eq!(text.value().as_str(), "a;b,c");

    let unknown = Iana::parse(b"IMAGE", b":https://example.com/b.png".as_slice()).unwrap();
    assert!(unknown.params().iana().is_empty());
    assert_eq!(unknown.value().as_str(), "https://example.com/b.png");
}

#[test]
fn iana_display_round_trips_the_content_line() {
    let iana =
        Iana::parse(b"IMAGE", b";VALUE=URI:http://example.com/images/party.png".as_slice())
            .unwrap();
    assert_eq!(iana.to_string(), "IMAGE;VALUE=URI:http://example.com/images/party.png");
}

#[test]
fn conference_falls_back_to_iana_with_folded_multi_value_feature_param() {
    let moderator = Iana::parse(
        b"CONFERENCE",
        b";VALUE=URI;FEATURE=PHONE,MODERATOR;LABEL=Moderator dial-in:tel:+1-412-555-0123,,,654321"
            .as_slice(),
    )
    .unwrap();
    assert_eq!(moderator.params().iana()[0].as_str(), "VALUE=URI");
    assert_eq!(moderator.params().iana()[1].as_str(), "FEATURE=PHONE,MODERATOR");
    assert_eq!(moderator.params().iana()[2].as_str(), "LABEL=Moderator dial-in");
    assert_eq!(moderator.value().as_str(), "tel:+1-412-555-0123,,,654321");

    let video = Iana::parse(
        b"CONFERENCE",
        b";VALUE=URI;FEATURE=AUDIO,VIDEO;LABEL=Attendee dial-in:https://chat.example.com/audio?id=123456"
            .as_slice(),
    )
    .unwrap();
    assert_eq!(video.params().iana()[1].as_str(), "FEATURE=AUDIO,VIDEO");
    assert_eq!(video.value().as_str(), "https://chat.example.com/audio?id=123456");
}

#[test]
fn xprop_build_writes_name_and_escaped_value() {
    let x = Xprop::build(Text::from("X-NOTE"), Text::from("a;b"));
    assert_eq!(x.to_string(), "X-NOTE:a\\;b");
}
