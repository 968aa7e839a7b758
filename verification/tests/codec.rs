use scancode::codec::{bool_from_yes, decode_record, encode_record, is_false, yes_from_bool};
use scancode::models::{Category, MalformedDocument, ScancodeLicense};

fn gpl_3_0_yaml() -> String {
    [
        "key: gpl-3.0",
        "short_name: GPL 3.0",
        "name: GNU General Public License 3.0",
        "category: Copyleft",
        "owner: Free Software Foundation (FSF)",
        "homepage_url: http://www.gnu.org/licenses/gpl-3.0.html",
        "notes: \"notes from SPDX:\\nThis license was released: 29 June 2007 This license is OSI certified.\"",
        "spdx_license_key: GPL-3.0",
        "text_urls:",
        "  - http://www.gnu.org/licenses/gpl-3.0.txt",
        "  - http://www.gnu.org/licenses/gpl-3.0-standalone.html",
        "osi_url: http://opensource.org/licenses/gpl-3.0.html",
        "faq_url: http://www.gnu.org/licenses/gpl-faq.html",
        "other_urls:",
        "  - http://www.gnu.org/licenses/quick-guide-gplv3.html",
    ]
    .join("\n")
}

fn gpl_2_0_library_yaml() -> String {
    [
        "key: gpl-2.0-library",
        "short_name: GPL 2.0 with Library exception",
        "name: GNU General Public License 2.0 with Library exception",
        "category: Copyleft Limited",
        "owner: Grammatica",
        "other_urls:",
        "  - http://grammatica.percederberg.net/index.html",
        "is_exception: yes",
    ]
    .join("\n")
}

fn expected_gpl_3_0() -> ScancodeLicense {
    ScancodeLicense {
        key: "gpl-3.0".into(),
        short_name: "GPL 3.0".into(),
        name: "GNU General Public License 3.0".into(),
        category: Category::Copyleft,
        owner: "Free Software Foundation (FSF)".into(),
        homepage_url: Some("http://www.gnu.org/licenses/gpl-3.0.html".into()),
        notes: Some(
            "notes from SPDX:\nThis license was released: 29 June 2007 This license is OSI certified."
                .into(),
        ),
        spdx_license_key: Some("GPL-3.0".into()),
        text_urls: vec![
            "http://www.gnu.org/licenses/gpl-3.0.txt".into(),
            "http://www.gnu.org/licenses/gpl-3.0-standalone.html".into(),
        ],
        osi_url: Some("http://opensource.org/licenses/gpl-3.0.html".into()),
        faq_url: Some("http://www.gnu.org/licenses/gpl-faq.html".into()),
        other_urls: vec!["http://www.gnu.org/licenses/quick-guide-gplv3.html".into()],
        is_exception: false,
        is_deprecated: false,
        minimum_coverage: None,
        ignorable_copyrights: Vec::new(),
        ignorable_holders: Vec::new(),
        ignorable_authors: Vec::new(),
        ignorable_urls: Vec::new(),
        ignorable_emails: Vec::new(),
        other_spdx_license_keys: Vec::new(),
        standard_notice: None,
        osi_license_key: None,
        language: None,
        text: "".to_string(),
    }
}

fn expected_gpl_2_0_library() -> ScancodeLicense {
    ScancodeLicense {
        key: "gpl-2.0-library".into(),
        short_name: "GPL 2.0 with Library exception".into(),
        name: "GNU General Public License 2.0 with Library exception".into(),
        category: Category::CopyleftLimited,
        owner: "Grammatica".into(),
        homepage_url: None,
        notes: None,
        spdx_license_key: None,
        text_urls: Vec::new(),
        osi_url: None,
        faq_url: None,
        other_urls: vec!["http://grammatica.percederberg.net/index.html".into()],
        is_exception: true,
        is_deprecated: false,
        minimum_coverage: None,
        ignorable_copyrights: Vec::new(),
        ignorable_holders: Vec::new(),
        ignorable_authors: Vec::new(),
        ignorable_urls: Vec::new(),
        ignorable_emails: Vec::new(),
        other_spdx_license_keys: Vec::new(),
        standard_notice: None,
        osi_license_key: None,
        language: None,
        text: "".to_string(),
    }
}

#[test]
fn deseralize_test_licenses() {
    assert!(decode_record(&gpl_3_0_yaml()).is_ok());
    assert!(decode_record(&gpl_2_0_library_yaml()).is_ok());
}

#[test]
fn serialize_test_licenses_immutably() {
    for text in [gpl_3_0_yaml(), gpl_2_0_library_yaml()] {
        let license = decode_record(&text).unwrap();
        let reencoded = encode_record(&license);
        let reparsed = decode_record(&reencoded).unwrap();
        assert_eq!(license, reparsed);
    }
}

#[test]
fn deserialize_correct_values() {
    let actual_license = decode_record(&gpl_3_0_yaml()).unwrap();
    assert_eq!(actual_license, expected_gpl_3_0());

    let actual_exception = decode_record(&gpl_2_0_library_yaml()).unwrap();
    assert_eq!(actual_exception, expected_gpl_2_0_library());
}

#[test]
fn round_trip_preserves_every_field() {
    let mut license = expected_gpl_3_0();
    license.is_deprecated = true;
    license.minimum_coverage = Some(80);
    license.ignorable_copyrights = vec!["Copyright (c) 2007 FSF".into()];
    license.standard_notice = Some("standard notice".into());
    license.language = Some("en".into());
    let encoded = encode_record(&license);
    let decoded = decode_record(&encoded).unwrap();
    assert_eq!(decoded, license);
}

#[test]
fn boolean_codec_reads_only_yes_as_true() {
    let base = gpl_2_0_library_yaml();
    let with_flag = |v: &str| base.replace("is_exception: yes", &format!("is_exception: {}", v));
    assert!(decode_record(&base).unwrap().is_exception);
    assert!(decode_record(&with_flag("\"yes\"")).unwrap().is_exception);
    assert!(!decode_record(&with_flag("\"no\"")).unwrap().is_exception);
    assert!(!decode_record(&with_flag("\"\"")).unwrap().is_exception);
    assert!(!decode_record(&with_flag("maybe")).unwrap().is_exception);
    assert!(!decode_record(&with_flag("Yes")).unwrap().is_exception);
}

#[test]
fn boolean_codec_writes_strictly() {
    assert_eq!(yes_from_bool(true), "yes");
    assert_eq!(yes_from_bool(false), "no");
    assert!(bool_from_yes("yes"));
    assert!(!bool_from_yes("no"));
    assert!(!bool_from_yes(""));
    assert!(!bool_from_yes("YES"));
    assert!(is_false(&false));
    assert!(!is_false(&true));
}

#[test]
fn encode_omits_defaults() {
    let license = expected_gpl_2_0_library();
    let encoded = encode_record(&license);
    assert!(encoded.contains("is_exception"));
    assert!(!encoded.contains("is_deprecated"));
    assert!(!encoded.contains("homepage_url"));
    assert!(!encoded.contains("notes"));
    assert!(!encoded.contains("text_urls"));
    assert!(!encoded.contains("minimum_coverage"));
    assert!(!encoded.contains("ignorable_copyrights"));
}

#[test]
fn encode_emits_yes_for_true_flag() {
    let license = expected_gpl_2_0_library();
    let encoded = encode_record(&license);
    assert!(encoded.contains("is_exception"));
    assert!(encoded.contains("yes"));
    let decoded = decode_record(&encoded).unwrap();
    assert!(decoded.is_exception);
}

#[test]
fn unknown_field_is_rejected() {
    let text = format!("{}\nfancy_extra_field: 1", gpl_3_0_yaml());
    assert!(matches!(
        decode_record(&text),
        Err(MalformedDocument::UnknownField)
    ));
}

#[test]
fn syntax_error_is_rejected() {
    assert!(matches!(
        decode_record("key: [unclosed"),
        Err(MalformedDocument::Syntax)
    ));
    assert!(matches!(
        decode_record("- a\n- b"),
        Err(MalformedDocument::Syntax)
    ));
}

#[test]
fn missing_required_field_is_rejected() {
    let text = gpl_3_0_yaml().replace("owner: Free Software Foundation (FSF)\n", "");
    assert!(matches!(
        decode_record(&text),
        Err(MalformedDocument::MissingMetadataField)
    ));
}

#[test]
fn type_mismatch_is_rejected() {
    let text = gpl_3_0_yaml().replace("key: gpl-3.0", "key:\n  - gpl-3.0");
    assert!(matches!(
        decode_record(&text),
        Err(MalformedDocument::TypeMismatch)
    ));
    let text = gpl_3_0_yaml().replace("key: gpl-3.0", "key: gpl-3.0\nminimum_coverage: not-a-number");
    assert!(matches!(
        decode_record(&text),
        Err(MalformedDocument::TypeMismatch)
    ));
    let text = gpl_3_0_yaml().replace("key: gpl-3.0", "key: gpl-3.0\nminimum_coverage: 3000000000");
    assert!(matches!(
        decode_record(&text),
        Err(MalformedDocument::TypeMismatch)
    ));
}

#[test]
fn invalid_category_label_is_rejected() {
    let text = gpl_3_0_yaml().replace("category: Copyleft", "category: Copyleft-ish");
    assert!(matches!(
        decode_record(&text),
        Err(MalformedDocument::InvalidEnumLabel)
    ));
    let text = gpl_3_0_yaml().replace("category: Copyleft", "category: copyleft");
    assert!(matches!(
        decode_record(&text),
        Err(MalformedDocument::InvalidEnumLabel)
    ));
}

#[test]
fn category_labels_match_exactly() {
    let labels = [
        ("Copyleft", Category::Copyleft),
        ("Copyleft Limited", Category::CopyleftLimited),
        ("Patent License", Category::PatentLicense),
        ("Permissive", Category::Permissive),
        ("Public Domain", Category::PublicDomain),
        ("Commercial", Category::Commercial),
        ("Proprietary Free", Category::ProprietaryFree),
        ("Free Restricted", Category::FreeRestricted),
        ("Source-available", Category::SourceAvailable),
        ("Unstated License", Category::UnstatedLicense),
    ];
    for (label, category) in labels {
        let text = gpl_3_0_yaml().replace("category: Copyleft\n", &format!("category: {}\n", label));
        let decoded = decode_record(&text).unwrap();
        assert_eq!(decoded.category, category);
        let round = decode_record(&encode_record(&decoded)).unwrap();
        assert_eq!(round.category, category);
    }
}

#[test]
fn minimum_coverage_round_trips() {
    let text = format!("{}\nminimum_coverage: 80", gpl_3_0_yaml());
    let decoded = decode_record(&text).unwrap();
    assert_eq!(decoded.minimum_coverage, Some(80));
    let round = decode_record(&encode_record(&decoded)).unwrap();
    assert_eq!(round.minimum_coverage, Some(80));
}

#[test]
fn text_is_never_read_from_the_document() {
    let text = format!("{}\ntext: some text", gpl_3_0_yaml());
    assert!(matches!(
        decode_record(&text),
        Err(MalformedDocument::UnknownField)
    ));
}

#[test]
fn null_optional_reads_as_absent() {
    let text = gpl_3_0_yaml().replace(
        "homepage_url: http://www.gnu.org/licenses/gpl-3.0.html",
        "homepage_url:",
    );
    let decoded = decode_record(&text).unwrap();
    assert_eq!(decoded.homepage_url, None);
}
