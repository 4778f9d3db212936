//! Tests of the rendered error messages.

use wavemark::format::codec::{CodecError, CodecOptions, FormatVersion, FrameCodec};
use wavemark::format::encryption::{EncryptionContext, EncryptionError, EncryptionMode};
use wavemark::format::payload::{PayloadBuilder, PayloadConstraints, PayloadError};

#[test]
fn payload_error_messages_render() {
    assert_eq!(
        PayloadError::EmptyKey.message(),
        "metadata keys cannot be empty"
    );
    assert_eq!(
        PayloadError::TooManyFields { limit: 32 }.message(),
        "payload exceeds the maximum of 32 metadata fields"
    );

    let mut builder = PayloadBuilder::new();
    let long_key = "k".repeat(65);
    let err = builder.int_field(&long_key, 1).unwrap_err();
    assert_eq!(
        err.message(),
        format!("metadata key '{}' exceeds maximum length 64", long_key)
    );

    let big_text = "a".repeat(600);
    let err = builder.text_field("content.body", &big_text).unwrap_err();
    assert_eq!(
        err.message(),
        "metadata value for 'content.body' exceeds 512 bytes"
    );

    let err = builder.account_id("   ").unwrap_err();
    assert_eq!(
        err.message(),
        "account id is invalid: account identifiers cannot be empty"
    );
}

#[test]
fn codec_error_messages_render() {
    assert_eq!(
        CodecError::UnexpectedEof.message(),
        "unexpected end of payload"
    );
    assert_eq!(
        CodecError::UnsupportedFieldType(0x55).message(),
        "unsupported field type tag 0x55"
    );
    assert_eq!(
        CodecError::UnsupportedFieldType(0x0A).message(),
        "unsupported field type tag 0x0A"
    );
    assert_eq!(
        CodecError::UnsupportedVersion {
            expected_major: 1,
            found: FormatVersion { major: 2, minor: 0 },
        }
        .message(),
        "unsupported payload version: expected major 1 but found 2.0"
    );
    assert_eq!(
        CodecError::InvalidHeader("magic mismatch").message(),
        "invalid codec header: magic mismatch"
    );
    assert_eq!(
        CodecError::InvalidUtf8("text value".to_owned()).message(),
        "text value is not valid UTF-8"
    );
}

#[test]
fn length_overflow_messages_render() {
    let loose = PayloadConstraints {
        max_fields: 32,
        max_key_bytes: 64,
        max_text_bytes: 70_000,
        max_blob_bytes: 1024,
    };
    let mut builder = PayloadBuilder::with_constraints(loose);
    let huge_text = "x".repeat(66_000);
    builder.text_field("content.body", &huge_text).unwrap();
    let frame = builder.build().unwrap();

    let codec = FrameCodec::new(CodecOptions {
        version: FormatVersion::latest(),
        constraints: loose,
        encryption: EncryptionMode::Plain,
    });
    let err = codec
        .encode(&frame, &EncryptionContext::default())
        .unwrap_err();
    assert!(matches!(err, CodecError::LengthOverflow("text value")));
    assert_eq!(err.message(), "text value exceeds representable length");
}

#[test]
fn encryption_error_messages_render() {
    assert_eq!(
        EncryptionError::CryptoFailure("tag mismatch".to_owned()).message(),
        "cryptographic operation failed: tag mismatch"
    );
    assert_eq!(
        EncryptionError::UnsupportedMode("sealed-v2").message(),
        "encryption mode 'sealed-v2' is not supported"
    );
    assert_eq!(
        EncryptionError::InvalidConfiguration("missing key".to_owned()).message(),
        "invalid encryption configuration: missing key"
    );
    assert_eq!(
        EncryptionError::RejectedPayload("too large".to_owned()).message(),
        "payload rejected by encryption strategy: too large"
    );
}
