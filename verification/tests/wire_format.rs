//! Tests of the binary codec: exact byte layout, header checks, truncation,
//! and the specific error variant each malformed input produces.

use wavemark::format::codec::{CodecError, CodecOptions, FormatVersion, FrameCodec, FrameEnvelope};
use wavemark::format::encryption::{EncryptionArtifacts, EncryptionContext, EncryptionMode, NoEncryption, PayloadEncryption};
use wavemark::format::payload::{
    MetadataKey, MetadataTimestamp, MetadataValue, PayloadBuilder, PayloadConstraints,
    PayloadError,
};

fn plain_codec() -> FrameCodec {
    FrameCodec::new(CodecOptions::default())
}

fn header() -> Vec<u8> {
    vec![0x57, 0x4D, 0x01, 0x00, 0x00, 0x00, 0x00, 0x00]
}

#[test]
fn encoded_bytes_match_the_wire_layout_exactly() {
    let mut builder = PayloadBuilder::new();
    builder.account_id("ab").unwrap();
    builder
        .issued_at(MetadataTimestamp::from_unix_seconds(1).unwrap())
        .unwrap();
    builder.bool_field("z.flag", true).unwrap();
    let frame = builder.build().unwrap();

    let bytes = plain_codec()
        .encode(&frame, &EncryptionContext::default())
        .unwrap();

    let mut expected = header();
    expected.extend_from_slice(&[0x03, 0x00]); // field count
    expected.push(10); // key length "account_id"
    expected.extend_from_slice(b"account_id");
    expected.push(0x01); // account tag
    expected.push(2);
    expected.extend_from_slice(b"ab");
    expected.push(9); // key length "issued_at"
    expected.extend_from_slice(b"issued_at");
    expected.push(0x02); // timestamp tag
    expected.extend_from_slice(&[0x01, 0, 0, 0, 0, 0, 0, 0]);
    expected.push(6); // key length "z.flag"
    expected.extend_from_slice(b"z.flag");
    expected.push(0x12); // bool tag
    expected.push(0x01);

    assert_eq!(bytes, expected);
    assert_eq!(bytes[4], 0x00); // plain envelope flag
}

#[test]
fn negative_timestamps_round_trip_in_twos_complement() {
    let mut builder = PayloadBuilder::new();
    builder
        .issued_at(MetadataTimestamp::from_unix_seconds(-2).unwrap())
        .unwrap();
    let frame = builder.build().unwrap();
    let bytes = plain_codec()
        .encode(&frame, &EncryptionContext::default())
        .unwrap();
    // header + count + key-len + "issued_at" + tag, then the i64 -2.
    let tail = &bytes[bytes.len() - 8..];
    assert_eq!(tail, &[0xFE, 0xFF, 0xFF, 0xFF, 0xFF, 0xFF, 0xFF, 0xFF]);

    let decoded = plain_codec()
        .decode(&bytes, &EncryptionContext::default())
        .unwrap();
    assert_eq!(decoded.issued_at().unwrap().to_unix_seconds().unwrap(), -2);
}

#[test]
fn non_ascii_text_round_trips() {
    let mut builder = PayloadBuilder::new();
    builder.text_field("content.title", "caf\u{e9} \u{1F3B5}").unwrap();
    let frame = builder.build().unwrap();
    let bytes = plain_codec()
        .encode(&frame, &EncryptionContext::default())
        .unwrap();
    let decoded = plain_codec()
        .decode(&bytes, &EncryptionContext::default())
        .unwrap();
    assert_eq!(
        decoded.get(&MetadataKey::custom("content.title").unwrap()),
        Some(&MetadataValue::Text("caf\u{e9} \u{1F3B5}".to_owned()))
    );
}

#[test]
fn header_rejection_on_bad_magic() {
    let mut bytes = header();
    bytes[0] = 0x58;
    bytes.extend_from_slice(&[0x00, 0x00]);
    let err = plain_codec()
        .decode(&bytes, &EncryptionContext::default())
        .unwrap_err();
    assert!(matches!(
        err,
        CodecError::InvalidHeader(message) if message == "magic mismatch"
    ));
}

#[test]
fn version_rejection_on_major_mismatch() {
    let mut bytes = header();
    bytes[2] = 0x02;
    bytes.extend_from_slice(&[0x00, 0x00]);
    let err = plain_codec()
        .decode(&bytes, &EncryptionContext::default())
        .unwrap_err();
    match err {
        CodecError::UnsupportedVersion {
            expected_major,
            found,
        } => {
            assert_eq!(expected_major, 1);
            assert_eq!(found, FormatVersion { major: 2, minor: 0 });
        }
        other => panic!("unexpected error: {:?}", other),
    }
}

#[test]
fn minor_version_is_informational_only() {
    let mut bytes = header();
    bytes[3] = 0x09;
    bytes.extend_from_slice(&[0x00, 0x00]);
    let decoded = plain_codec()
        .decode(&bytes, &EncryptionContext::default())
        .unwrap();
    // An empty body decodes to a frame holding only the seeded issued_at.
    assert!(decoded.issued_at().is_some());
    assert_eq!(decoded.iter().len(), 1);
}

#[test]
fn unknown_envelope_flag_is_rejected() {
    let mut bytes = header();
    bytes[4] = 0x07;
    bytes.extend_from_slice(&[0x00, 0x00]);
    let err = plain_codec()
        .decode(&bytes, &EncryptionContext::default())
        .unwrap_err();
    assert!(matches!(
        err,
        CodecError::InvalidHeader(message) if message == "unknown envelope flag"
    ));
}

#[test]
fn truncation_is_an_end_of_buffer_error() {
    let err = plain_codec()
        .decode(&[0x57], &EncryptionContext::default())
        .unwrap_err();
    assert!(matches!(err, CodecError::UnexpectedEof));

    // Declared one field, but no record follows.
    let mut bytes = header();
    bytes.extend_from_slice(&[0x01, 0x00]);
    let err = plain_codec()
        .decode(&bytes, &EncryptionContext::default())
        .unwrap_err();
    assert!(matches!(err, CodecError::UnexpectedEof));

    // Declared key length runs past the buffer.
    let mut bytes = header();
    bytes.extend_from_slice(&[0x01, 0x00, 0x05, b'a']);
    let err = plain_codec()
        .decode(&bytes, &EncryptionContext::default())
        .unwrap_err();
    assert!(matches!(err, CodecError::UnexpectedEof));

    // Declared text length runs past the buffer.
    let mut bytes = header();
    bytes.extend_from_slice(&[0x01, 0x00, 0x01, b'a', 0x10, 0xFF, 0x00, b'x']);
    let err = plain_codec()
        .decode(&bytes, &EncryptionContext::default())
        .unwrap_err();
    assert!(matches!(err, CodecError::UnexpectedEof));
}

#[test]
fn unsupported_field_type_names_the_tag() {
    let mut bytes = header();
    bytes.extend_from_slice(&[0x01, 0x00, 0x01, b'a', 0x55]);
    let err = plain_codec()
        .decode(&bytes, &EncryptionContext::default())
        .unwrap_err();
    assert!(matches!(err, CodecError::UnsupportedFieldType(0x55)));
}

#[test]
fn boolean_wire_value_must_be_zero_or_one() {
    let mut bytes = header();
    bytes.extend_from_slice(&[0x01, 0x00, 0x01, b'a', 0x12, 0x02]);
    let err = plain_codec()
        .decode(&bytes, &EncryptionContext::default())
        .unwrap_err();
    assert!(matches!(
        err,
        CodecError::InvalidHeader(message) if message == "boolean value must be 0 or 1"
    ));
}

#[test]
fn invalid_utf8_is_reported_per_section() {
    // In the key.
    let mut bytes = header();
    bytes.extend_from_slice(&[0x01, 0x00, 0x01, 0xFF]);
    let err = plain_codec()
        .decode(&bytes, &EncryptionContext::default())
        .unwrap_err();
    assert!(matches!(
        err,
        CodecError::InvalidUtf8(section) if section == "metadata key"
    ));

    // In a text value.
    let mut bytes = header();
    bytes.extend_from_slice(&[0x01, 0x00, 0x01, b'a', 0x10, 0x01, 0x00, 0xFF]);
    let err = plain_codec()
        .decode(&bytes, &EncryptionContext::default())
        .unwrap_err();
    assert!(matches!(
        err,
        CodecError::InvalidUtf8(section) if section == "text value"
    ));
}

#[test]
fn decode_revalidates_keys_and_values() {
    // An uppercase custom key fails the key rules.
    let mut bytes = header();
    bytes.extend_from_slice(&[0x01, 0x00, 0x01, b'A', 0x11]);
    bytes.extend_from_slice(&[0, 0, 0, 0, 0, 0, 0, 0]);
    let err = plain_codec()
        .decode(&bytes, &EncryptionContext::default())
        .unwrap_err();
    assert!(matches!(
        err,
        CodecError::Payload(PayloadError::InvalidCustomKey(_))
    ));

    // A structurally invalid account identifier is rejected.
    let mut bytes = header();
    bytes.extend_from_slice(&[0x01, 0x00, 10]);
    bytes.extend_from_slice(b"account_id");
    bytes.extend_from_slice(&[0x01, 0x01, b'!']);
    let err = plain_codec()
        .decode(&bytes, &EncryptionContext::default())
        .unwrap_err();
    assert!(matches!(
        err,
        CodecError::Payload(PayloadError::InvalidAccountId(_))
    ));

    // An out-of-range timestamp is rejected.
    let mut bytes = header();
    bytes.extend_from_slice(&[0x01, 0x00, 9]);
    bytes.extend_from_slice(b"issued_at");
    bytes.push(0x02);
    bytes.extend_from_slice(&[0xFF, 0xFF, 0xFF, 0xFF, 0xFF, 0xFF, 0xFF, 0x7F]);
    let err = plain_codec()
        .decode(&bytes, &EncryptionContext::default())
        .unwrap_err();
    assert!(matches!(
        err,
        CodecError::Payload(PayloadError::InvalidTimestamp(_))
    ));
}

#[test]
fn decode_enforces_the_codec_constraints() {
    // Encode under the default limits, then decode with a stricter codec.
    let mut builder = PayloadBuilder::new();
    builder.text_field("averylongcustomkey", "v").unwrap();
    let frame = builder.build().unwrap();
    let bytes = plain_codec()
        .encode(&frame, &EncryptionContext::default())
        .unwrap();

    let strict = FrameCodec::new(CodecOptions {
        version: FormatVersion::latest(),
        constraints: PayloadConstraints {
            max_fields: 32,
            max_key_bytes: 9,
            max_text_bytes: 512,
            max_blob_bytes: 1024,
        },
        encryption: EncryptionMode::Plain,
    });
    let err = strict
        .decode(&bytes, &EncryptionContext::default())
        .unwrap_err();
    assert!(matches!(
        err,
        CodecError::Payload(PayloadError::KeyTooLong { limit: 9, .. })
    ));
}

#[test]
fn blob_values_round_trip() {
    let mut builder = PayloadBuilder::new();
    builder
        .binary_field("content.raw", vec![0x00, 0xFE, 0x7F, 0x80])
        .unwrap();
    let frame = builder.build().unwrap();
    let bytes = plain_codec()
        .encode(&frame, &EncryptionContext::default())
        .unwrap();
    let decoded = plain_codec()
        .decode(&bytes, &EncryptionContext::default())
        .unwrap();
    assert_eq!(
        decoded.get(&MetadataKey::custom("content.raw").unwrap()),
        Some(&MetadataValue::Blob(vec![0x00, 0xFE, 0x7F, 0x80]))
    );
}

#[test]
fn envelope_flag_matches_the_mode() {
    let mut builder = PayloadBuilder::new();
    builder.account_id("acct_flag").unwrap();
    let frame = builder.build().unwrap();
    let bytes = plain_codec()
        .encode(&frame, &EncryptionContext::default())
        .unwrap();
    assert_eq!(bytes[0], 0x57);
    assert_eq!(bytes[1], 0x4D);
    assert_eq!(bytes[4], 0x00);
}

#[test]
fn envelope_helpers_report_modes() {
    assert_eq!(FrameEnvelope::from_flag(0), Some(FrameEnvelope::Plain));
    assert_eq!(
        FrameEnvelope::from_flag(1),
        Some(FrameEnvelope::EncryptedHash)
    );
    assert_eq!(FrameEnvelope::from_flag(9), None);
    assert!(EncryptionMode::Plain.is_none());
    assert!(!EncryptionMode::Plain.is_encrypted_hash());
}

#[test]
fn no_encryption_strategy_passes_bytes_through() {
    let strategy = NoEncryption;
    let context = EncryptionContext::default();
    let artifacts = strategy.seal(&[1, 2, 3], &context).unwrap();
    assert_eq!(artifacts.sealed_payload, vec![1, 2, 3]);
    assert!(artifacts.tag.is_none());
    assert!(artifacts.metadata.is_none());
    let opened = strategy.open(&[4, 5], &artifacts, &context).unwrap();
    assert_eq!(opened, vec![4, 5]);

    let passthrough = EncryptionArtifacts::passthrough(vec![9, 9]);
    assert_eq!(passthrough.sealed_payload, vec![9, 9]);
    assert!(passthrough.tag.is_none());
    assert!(passthrough.metadata.is_none());
}

#[test]
fn example_scenario_reproduces_all_fields() {
    let mut builder = PayloadBuilder::new();
    builder.account_id("acct_demo").unwrap();
    builder.text_field("content.title", "Demo Track").unwrap();
    builder.int_field("content.duration_seconds", 185).unwrap();
    let frame = builder.build().unwrap();

    let codec = plain_codec();
    let bytes = codec.encode(&frame, &EncryptionContext::default()).unwrap();
    let decoded = codec.decode(&bytes, &EncryptionContext::default()).unwrap();

    assert_eq!(decoded.account_id().unwrap().as_str(), "acct_demo");
    assert_eq!(
        decoded.get(&MetadataKey::custom("content.title").unwrap()),
        Some(&MetadataValue::Text("Demo Track".to_owned()))
    );
    assert_eq!(
        decoded.get(&MetadataKey::custom("content.duration_seconds").unwrap()),
        Some(&MetadataValue::Integer(185))
    );
    assert!(decoded.issued_at().is_some());
    assert_eq!(decoded.iter().len(), 4);
    assert_eq!(decoded, frame);
}
