use cratical::params::{Altrep, Feature, FeatureValue, Fmttype};
use cratical::properties::component::descriptive::{
    Attachment, AttachmentValue, Categories, CategoriesBuilder, ClassificationEnum, Color,
    CommentBuilder, ConferenceBuilder, Image, PercentComplete, Priority, Source, StatusValue,
    Summary, SummaryBuilder,
};
use cratical::values::{Binary, Ical, Integer, MediaType, Text, Uri};

#[test]
fn color_and_source_new_match_their_parsed_text() {
    assert_eq!(Color::new(Text::from("turquoise")).to_string(), "COLOR:turquoise");
    assert_eq!(
        Source::new(Uri::parse("https://example.com/holidays.ics").unwrap()).to_string(),
        "SOURCE:https://example.com/holidays.ics"
    );
}

#[test]
fn conference_builder_round_trips() {
    let conference = ConferenceBuilder::new(Uri::parse("tel:+1-412-555-0123,,,654321").unwrap())
        .feature(Feature::new(vec![FeatureValue::Phone]))
        .build();
    assert_eq!(conference.to_string(), "CONFERENCE;FEATURE=PHONE:tel:+1-412-555-0123,,,654321");
}

#[test]
fn image_from_uri_and_from_binary_round_trip() {
    let image = Image::from_uri(
        Uri::parse("http://example.com/images/party.png").unwrap(),
        Some(Fmttype::new(MediaType::new("image", "png"))),
        None,
        None,
    );
    assert_eq!(image.to_string(), "IMAGE;FMTTYPE=image/png:http://example.com/images/party.png");

    let binary = Image::from_binary(Binary::try_from(b"aGVsbG8=".as_slice()).unwrap(), None, None);
    assert_eq!(binary.to_string(), "IMAGE;ENCODING=BASE64;VALUE=BINARY:aGVsbG8=");
}

#[test]
fn classification_fixed_tokens() {
    assert!(matches!(ClassificationEnum::try_from(b"PUBLIC".as_slice()), Ok(ClassificationEnum::Public)));
    assert!(matches!(ClassificationEnum::try_from(b"PRIVATE".as_slice()), Ok(ClassificationEnum::Private)));
    assert!(matches!(
        ClassificationEnum::try_from(b"CONFIDENTIAL".as_slice()),
        Ok(ClassificationEnum::Confidential)
    ));
}

#[test]
fn classification_x_name_and_iana() {
    assert!(matches!(
        ClassificationEnum::try_from(b"X-COMPANY-INTERNAL".as_slice()),
        Ok(ClassificationEnum::XName(_))
    ));
    assert!(matches!(
        ClassificationEnum::try_from(b"SOME-IANA-TOKEN".as_slice()),
        Ok(ClassificationEnum::Iana(_))
    ));
}

#[test]
fn attachment_value_uri() {
    assert!(matches!(
        AttachmentValue::try_from(b"ftp://example.com/pub/docs/agenda.doc".as_slice()),
        Ok(AttachmentValue::Uri(_))
    ));
}

#[test]
fn attachment_value_binary() {
    assert!(matches!(AttachmentValue::try_from(b"aGVsbG8=".as_slice()), Ok(AttachmentValue::Binary(_))));
}

#[test]
fn attachment_rejects_encoding_base64_on_a_uri_shaped_value() {
    assert!(Attachment::try_from(b";ENCODING=BASE64:ftp://example.com/pub/docs/agenda.doc".as_slice())
        .is_err());
}

#[test]
fn attachment_rejects_value_binary_on_a_uri_shaped_value() {
    assert!(Attachment::try_from(b";VALUE=BINARY:ftp://example.com/pub/docs/agenda.doc".as_slice())
        .is_err());
}

#[test]
fn attachment_rejects_value_uri_on_a_binary_shaped_value() {
    assert!(Attachment::try_from(b";VALUE=URI:aGVsbG8=".as_slice()).is_err());
}

#[test]
fn attachment_accepts_consistent_binary_params() {
    assert!(Attachment::try_from(b";ENCODING=BASE64;VALUE=BINARY:aGVsbG8=".as_slice()).is_ok());
}

#[test]
fn attachment_accepts_a_plain_uri_with_no_params() {
    assert!(Attachment::try_from(b":ftp://example.com/pub/docs/agenda.doc".as_slice()).is_ok());
}

#[test]
fn status_value_shared_cancelled() {
    assert!(matches!(StatusValue::try_from(b"CANCELLED".as_slice()), Ok(StatusValue::Cancelled)));
}

#[test]
fn status_value_all_tokens() {
    for (tok, matches_variant) in [
        ("TENTATIVE", "Tentative"),
        ("CONFIRMED", "Confirmed"),
        ("NEEDS-ACTION", "NeedsAction"),
        ("COMPLETED", "Completed"),
        ("IN-PROCESS", "InProcess"),
        ("DRAFT", "Draft"),
        ("FINAL", "Final"),
    ] {
        let parsed = StatusValue::try_from(tok.as_bytes());
        assert!(parsed.is_ok(), "{tok} ({matches_variant}) failed to parse");
    }
}

#[test]
fn status_value_rejects_unknown_token() {
    assert!(StatusValue::try_from(b"BOGUS".as_slice()).is_err());
}

#[test]
fn categories_splits_on_unescaped_commas_only() {
    let categories = Categories::try_from(b":Meeting\\, John,Work\\, Sarah,Project".as_slice()).unwrap();
    let values: Vec<&str> = categories.value().iter().map(|t| t.as_str()).collect();
    assert_eq!(values, ["Meeting, John", "Work, Sarah", "Project"]);
}

#[test]
fn summary_display_round_trips_the_content_line() {
    let summary = Summary::try_from(b":Department Party".as_slice()).unwrap();
    assert_eq!(summary.to_string(), "SUMMARY:Department Party");
}

#[test]
fn categories_display_round_trips_the_comma_separated_list() {
    let categories = Categories::try_from(b":Meeting\\, John,Work\\, Sarah,Project".as_slice()).unwrap();
    assert_eq!(categories.to_string(), "CATEGORIES:Meeting\\, John,Work\\, Sarah,Project");
}

#[test]
fn percent_complete_new_rejects_out_of_range() {
    assert!(PercentComplete::new(Integer::new(101)).is_err());
    assert!(PercentComplete::new(Integer::new(39)).is_ok());
}

#[test]
fn priority_new_rejects_out_of_range() {
    assert!(Priority::new(Integer::new(10)).is_err());
    assert!(Priority::new(Integer::new(1)).is_ok());
}

#[test]
fn percent_complete_and_priority_parse_only_in_range() {
    assert_eq!(PercentComplete::try_from(b":39".as_slice()).unwrap().to_string(), "PERCENT-COMPLETE:39");
    assert!(PercentComplete::try_from(b":101".as_slice()).is_err());
    assert!(Priority::try_from(b":-1".as_slice()).is_err());
    assert_eq!(Priority::try_from(b":9".as_slice()).unwrap().to_string(), "PRIORITY:9");
}

#[test]
fn altrep_language_builders_round_trip() {
    let summary = SummaryBuilder::new(Text::from("Department Party")).build();
    assert_eq!(summary.to_string(), "SUMMARY:Department Party");

    let comment = CommentBuilder::new(Text::from("Hi"))
        .altrep(Altrep::new(Uri::parse("cid:part1").unwrap()))
        .build();
    assert_eq!(comment.to_string(), "COMMENT;ALTREP=\"cid:part1\":Hi");
}

#[test]
fn categories_builder_round_trips_the_comma_separated_list() {
    let categories = CategoriesBuilder::new(vec![
        Text::from("Meeting, John"),
        Text::from("Work, Sarah"),
        Text::from("Project"),
    ])
    .build();
    assert_eq!(categories.to_string(), "CATEGORIES:Meeting\\, John,Work\\, Sarah,Project");
}

#[test]
fn attachment_from_uri_round_trips() {
    let attachment =
        Attachment::from_uri(Uri::parse("ftp://example.com/pub/docs/agenda.doc").unwrap(), None);
    assert_eq!(attachment.to_string(), "ATTACH:ftp://example.com/pub/docs/agenda.doc");
}

#[test]
fn attachment_from_binary_sets_encoding_and_value_params() {
    let attachment = Attachment::from_binary(Binary::new(b"hello".to_vec()), None);
    assert_eq!(attachment.to_string(), "ATTACH;ENCODING=BASE64;VALUE=BINARY:aGVsbG8=");
}

#[test]
fn binary_decodes_and_encodes_base64() {
    let b = Binary::try_from(b"aGVsbG8=".as_slice()).unwrap();
    assert_eq!(b.as_slice(), b"hello");
    assert_eq!(Binary::new(b"hi".to_vec()).to_string(), "aGk=");
    assert_eq!(Binary::new(b"abc".to_vec()).to_string(), "YWJj");
    assert_eq!(Binary::new(Vec::new()).to_string(), "");
    assert!(Binary::try_from(b"aGVsbG8".as_slice()).is_err());
    assert!(Binary::try_from(b"a?==".as_slice()).is_err());
}
