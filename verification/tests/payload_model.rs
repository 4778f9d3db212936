//! Tests of the data model: keys, account identifiers, timestamps, the
//! builder's validation, and frame queries.

use wavemark::format::model::{ACCOUNT_ID_MAX_BYTES, TIMESTAMP_MAX_SECONDS, TIMESTAMP_MIN_SECONDS};
use wavemark::format::payload::{
    metadata_field, AccountId, MetadataField, MetadataKey, MetadataTimestamp, MetadataValue,
    PayloadBuilder, PayloadConstraints, PayloadError, PayloadFrame, WellKnownField,
};

#[test]
fn account_id_validation_rules() {
    assert!(matches!(
        AccountId::new(""),
        Err(PayloadError::InvalidAccountId(_))
    ));
    assert!(matches!(
        AccountId::new("   "),
        Err(PayloadError::InvalidAccountId(reason))
            if reason == "account identifiers cannot be empty"
    ));
    let long = "a".repeat(ACCOUNT_ID_MAX_BYTES + 1);
    assert!(matches!(
        AccountId::new(&long),
        Err(PayloadError::InvalidAccountId(reason))
            if reason == "account identifier exceeds maximum length"
    ));
    assert!(matches!(
        AccountId::new("acct demo"),
        Err(PayloadError::InvalidAccountId(reason))
            if reason == "account identifier must be alphanumeric plus '-' or '_'"
    ));
    let ok = AccountId::new("acct_demo").unwrap();
    assert_eq!(ok.as_str(), "acct_demo");
    assert!(ok.validate().is_ok());
    let exactly_max = "B".repeat(ACCOUNT_ID_MAX_BYTES);
    assert!(AccountId::new(&exactly_max).is_ok());
}

#[test]
fn custom_key_validation_rules() {
    assert!(matches!(MetadataKey::custom(""), Err(PayloadError::EmptyKey)));
    assert!(matches!(
        MetadataKey::custom("Bad-Key"),
        Err(PayloadError::InvalidCustomKey(_))
    ));
    assert!(matches!(
        MetadataKey::custom("with space"),
        Err(PayloadError::InvalidCustomKey(_))
    ));
    let ok = MetadataKey::custom("content.title_2").unwrap();
    assert_eq!(ok.as_str(), "content.title_2");
}

#[test]
fn key_parse_canonicalizes_well_known_names() {
    let parsed = MetadataKey::parse("account_id").unwrap();
    assert_eq!(parsed, MetadataKey::well_known(WellKnownField::AccountId));
    let custom = MetadataKey::parse("content.title").unwrap();
    assert_eq!(custom, MetadataKey::custom("content.title").unwrap());
    assert!(matches!(
        MetadataKey::parse("NOT_OK"),
        Err(PayloadError::InvalidCustomKey(_))
    ));
}

#[test]
fn timestamp_range_rules() {
    let ok_max = MetadataTimestamp::from_unix_seconds(TIMESTAMP_MAX_SECONDS).unwrap();
    assert_eq!(ok_max.to_unix_seconds().unwrap(), TIMESTAMP_MAX_SECONDS);
    let ok_min = MetadataTimestamp::from_unix_seconds(TIMESTAMP_MIN_SECONDS).unwrap();
    assert_eq!(ok_min.to_unix_seconds().unwrap(), TIMESTAMP_MIN_SECONDS);
    assert!(matches!(
        MetadataTimestamp::from_unix_seconds(TIMESTAMP_MAX_SECONDS + 1),
        Err(PayloadError::InvalidTimestamp(reason))
            if reason == "timestamp exceeds supported range"
    ));
    assert!(matches!(
        MetadataTimestamp::from_unix_seconds(TIMESTAMP_MIN_SECONDS - 1),
        Err(PayloadError::InvalidTimestamp(reason))
            if reason == "timestamp precedes supported range"
    ));
    assert!(matches!(
        MetadataTimestamp::from_unix_seconds(i64::MIN),
        Err(PayloadError::InvalidTimestamp(reason))
            if reason == "seconds precede the representable range"
    ));
    let now = MetadataTimestamp::now();
    assert!(now.to_unix_seconds().is_ok());
}

#[test]
fn default_constraints_values() {
    let c = PayloadConstraints::default();
    assert_eq!(c.max_fields, 32);
    assert_eq!(c.max_key_bytes, 64);
    assert_eq!(c.max_text_bytes, 512);
    assert_eq!(c.max_blob_bytes, 1024);
}

#[test]
fn builder_enforces_field_count_at_build_only() {
    let mut builder = PayloadBuilder::new();
    for i in 0..64 {
        let key = format!("k{:02}", i);
        builder.int_field(&key, i as i64).unwrap();
    }
    let err = builder.build().unwrap_err();
    assert!(matches!(err, PayloadError::TooManyFields { limit: 32 }));

    let mut small = PayloadBuilder::new();
    for i in 0..31 {
        let key = format!("k{:02}", i);
        small.int_field(&key, i as i64).unwrap();
    }
    // 31 custom fields plus the seeded issued_at is exactly the cap.
    let frame = small.build().unwrap();
    assert!(frame.issued_at().is_some());
}

#[test]
fn builder_enforces_value_sizes() {
    let mut builder = PayloadBuilder::new();
    let big_text = "a".repeat(600);
    let err = builder.text_field("content.body", &big_text).unwrap_err();
    assert!(matches!(err, PayloadError::ValueTooLarge { limit: 512, .. }));

    let big_blob = vec![0u8; 1025];
    let err = builder.binary_field("content.blob", big_blob).unwrap_err();
    assert!(matches!(err, PayloadError::ValueTooLarge { limit: 1024, .. }));

    let long_key = "k".repeat(65);
    let err = builder.int_field(&long_key, 1).unwrap_err();
    assert!(matches!(err, PayloadError::KeyTooLong { limit: 64, .. }));

    // A failed insertion leaves the builder usable.
    builder.text_field("content.body", "short").unwrap();
    let frame = builder.build().unwrap();
    assert_eq!(
        frame.get(&MetadataKey::custom("content.body").unwrap()),
        Some(&MetadataValue::Text("short".to_owned()))
    );
}

#[test]
fn builder_last_write_wins() {
    let mut builder = PayloadBuilder::new();
    builder.text_field("content.note", "first").unwrap();
    builder.text_field("content.note", "second").unwrap();
    let frame = builder.build().unwrap();
    assert_eq!(
        frame.get(&MetadataKey::custom("content.note").unwrap()),
        Some(&MetadataValue::Text("second".to_owned()))
    );
}

#[test]
fn frame_iterates_in_key_order() {
    let mut builder = PayloadBuilder::new();
    builder.text_field("beta", "2").unwrap();
    builder.text_field("alpha", "1").unwrap();
    builder.account_id("acct_iter").unwrap();
    let frame = builder.build().unwrap();
    let keys: Vec<String> = frame
        .iter()
        .iter()
        .map(|f| f.key.as_str().to_owned())
        .collect();
    assert_eq!(keys, vec!["account_id", "issued_at", "alpha", "beta"]);
}

#[test]
fn frame_lookup_and_typed_getters() {
    let mut builder = PayloadBuilder::new();
    builder.account_id("acct_get").unwrap();
    let expires = MetadataTimestamp::from_unix_seconds(2_000_000_000).unwrap();
    builder.expires_at(expires).unwrap();
    let frame = builder.build().unwrap();

    assert_eq!(frame.account_id().unwrap().as_str(), "acct_get");
    assert!(frame.issued_at().is_some());
    assert!(frame
        .get(&MetadataKey::custom("missing.key").unwrap())
        .is_none());
    let expires_key = MetadataKey::well_known(WellKnownField::ExpiresAt);
    assert_eq!(
        frame.get(&expires_key),
        Some(&MetadataValue::Timestamp(expires))
    );
}

#[test]
fn metadata_field_helper_parses_keys() {
    let field = metadata_field("content.title", MetadataValue::Text("T".to_owned())).unwrap();
    assert_eq!(field.key, MetadataKey::custom("content.title").unwrap());
    assert!(matches!(
        metadata_field("", MetadataValue::Bool(true)),
        Err(PayloadError::EmptyKey)
    ));
}

#[test]
fn from_fields_builds_a_frame() {
    let fields = vec![
        MetadataField::new(
            MetadataKey::custom("content.a").unwrap(),
            MetadataValue::Integer(7),
        ),
        MetadataField::new(
            MetadataKey::well_known(WellKnownField::SessionId),
            MetadataValue::Text("s-1".to_owned()),
        ),
    ];
    let frame = PayloadFrame::from_fields(fields).unwrap();
    assert_eq!(
        frame.get(&MetadataKey::custom("content.a").unwrap()),
        Some(&MetadataValue::Integer(7))
    );
    assert!(frame.issued_at().is_some());
    assert_eq!(frame.iter().len(), 3);
}

#[test]
fn frame_equality_is_structural() {
    let mut a = PayloadBuilder::new();
    let ts = MetadataTimestamp::from_unix_seconds(10).unwrap();
    a.issued_at(ts).unwrap();
    a.bool_field("content.flag", false).unwrap();
    let fa = a.build().unwrap();

    let mut b = PayloadBuilder::new();
    b.bool_field("content.flag", false).unwrap();
    b.issued_at(ts).unwrap();
    let fb = b.build().unwrap();

    assert_eq!(fa, fb);

    let mut c = PayloadBuilder::new();
    c.issued_at(ts).unwrap();
    c.bool_field("content.flag", true).unwrap();
    let fc = c.build().unwrap();
    assert_ne!(fa, fc);
}
