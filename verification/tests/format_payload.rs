//! End-to-end tests of the format facade, builder, and codec.

use std::sync::Arc;

use wavemark::format::codec::{CodecError, CodecOptions, FrameCodec};
use wavemark::format::encryption::{
    EncryptedHashConfig, EncryptedHashStrategy, EncryptionArtifacts, EncryptionContext,
    EncryptionError, EncryptionMode, PayloadEncryption,
};
use wavemark::format::payload::{MetadataKey, MetadataTimestamp, MetadataValue, PayloadError};
use wavemark::format::FormatBuilder;

#[derive(Debug, Clone)]
struct TestStrategy {
    seed: Vec<u8>,
}

impl TestStrategy {
    fn new(seed: impl Into<Vec<u8>>) -> Self {
        Self { seed: seed.into() }
    }

    fn transform(&self, input: &[u8]) -> Vec<u8> {
        if self.seed.is_empty() {
            return input.to_vec();
        }
        input
            .iter()
            .enumerate()
            .map(|(idx, byte)| byte ^ self.seed[idx % self.seed.len()])
            .collect()
    }

    fn seal_impl(
        &self,
        payload: &[u8],
        context: &EncryptionContext,
    ) -> Result<EncryptionArtifacts, EncryptionError> {
        Ok(EncryptionArtifacts {
            sealed_payload: self.transform(payload),
            tag: Some(vec![self.seed.len() as u8]),
            metadata: context.associated_data.clone(),
        })
    }

    fn open_impl(
        &self,
        sealed: &[u8],
        artifacts: &EncryptionArtifacts,
        context: &EncryptionContext,
    ) -> Result<Vec<u8>, EncryptionError> {
        let expected_tag = self.seed.len() as u8;
        match artifacts.tag.as_deref() {
            Some([tag]) if *tag == expected_tag => {}
            _ => return Err(EncryptionError::CryptoFailure("tag mismatch".into())),
        }

        if artifacts.metadata != context.associated_data {
            return Err(EncryptionError::CryptoFailure("aad mismatch".into()));
        }

        Ok(self.transform(sealed))
    }
}

impl PayloadEncryption for TestStrategy {
    fn seal(
        &self,
        payload: &[u8],
        context: &EncryptionContext,
    ) -> Result<EncryptionArtifacts, EncryptionError> {
        self.seal_impl(payload, context)
    }

    fn open(
        &self,
        sealed: &[u8],
        artifacts: &EncryptionArtifacts,
        context: &EncryptionContext,
    ) -> Result<Vec<u8>, EncryptionError> {
        self.open_impl(sealed, artifacts, context)
    }

    fn scheme_name(&self) -> &'static str {
        "test-xor"
    }
}

impl EncryptedHashStrategy for TestStrategy {
    fn seal(
        &self,
        payload: &[u8],
        context: &EncryptionContext,
    ) -> Result<EncryptionArtifacts, EncryptionError> {
        self.seal_impl(payload, context)
    }

    fn open(
        &self,
        sealed: &[u8],
        artifacts: &EncryptionArtifacts,
        context: &EncryptionContext,
    ) -> Result<Vec<u8>, EncryptionError> {
        self.open_impl(sealed, artifacts, context)
    }

    fn algorithm_id(&self) -> &'static str {
        "test-xor"
    }
}

#[test]
fn build_payload_with_multiple_fields() {
    let mut builder = FormatBuilder::new();
    builder
        .payload_builder()
        .account_id("acct_demo")
        .unwrap()
        .text_field("content.title", "Demo Track")
        .unwrap()
        .int_field("content.duration_seconds", 185)
        .unwrap();

    let output = builder.build().unwrap();
    let frame = output.frame;

    let title_key = MetadataKey::custom("content.title").unwrap();
    let duration_key = MetadataKey::custom("content.duration_seconds").unwrap();

    assert_eq!(frame.account_id().unwrap().as_str(), "acct_demo");
    assert_eq!(
        frame.get(&title_key),
        Some(&MetadataValue::Text("Demo Track".to_owned()))
    );
    assert_eq!(frame.get(&duration_key), Some(&MetadataValue::Integer(185)));

    // Default issued_at should always be present.
    assert!(frame.issued_at().is_some());
}

#[test]
fn encrypted_hashes_are_deterministic_with_seed() {
    let strategy: Arc<dyn EncryptedHashStrategy> = Arc::new(TestStrategy::new([0xAA, 0x55]));
    let config = EncryptedHashConfig {
        strategy: strategy.clone(),
        key_id: Some("test-key".into()),
        nonce: Some(vec![0x01, 0x02, 0x03]),
    };

    let mut options = CodecOptions::default();
    options.encryption = EncryptionMode::EncryptedHash(config.clone());
    // Cloning a configuration keeps the key identifier and nonce.
    let copied = config.clone();
    assert_eq!(copied.key_id, Some("test-key".to_owned()));
    assert_eq!(copied.nonce, Some(vec![0x01, 0x02, 0x03]));

    let context = EncryptionContext {
        channel_id: Some("channel-42".into()),
        associated_data: Some(b"aad".to_vec()),
    };

    let mut builder_a = FormatBuilder::with_options(options.clone());
    builder_a
        .payload_builder()
        .account_id("acct_det")
        .unwrap()
        .text_field("content.label", "Encrypted")
        .unwrap();
    let output_a = builder_a
        .encryption_context(context.clone())
        .encryption_mode(EncryptionMode::EncryptedHash(config.clone()))
        .build()
        .unwrap();

    let mut builder_b = FormatBuilder::with_options(options.clone());
    builder_b
        .payload_builder()
        .account_id("acct_det")
        .unwrap()
        .text_field("content.label", "Encrypted")
        .unwrap();
    let output_b = builder_b
        .encryption_context(context.clone())
        .encryption_mode(EncryptionMode::EncryptedHash(config))
        .build()
        .unwrap();

    assert_eq!(output_a.bytes, output_b.bytes);
    // Encrypted envelope flag should be set to 1.
    assert_eq!(output_a.bytes[4], 1);
}

#[test]
fn round_trip_serialization_plaintext() {
    let mut builder = FormatBuilder::new();
    let issued_at = MetadataTimestamp::from_unix_seconds(1_700_000_000).unwrap();
    builder
        .payload_builder()
        .account_id("acct_round")
        .unwrap()
        .issued_at(issued_at.clone())
        .unwrap()
        .bool_field("content.flag", true)
        .unwrap();

    let output = builder.build().unwrap();
    let frame = output.frame.clone();
    let bytes = output.bytes.clone();

    let codec = FrameCodec::new(CodecOptions::default());
    let decoded = codec.decode(&bytes, &EncryptionContext::default()).unwrap();

    assert_eq!(frame, decoded);
}

#[test]
fn builder_and_codec_error_conditions() {
    // Missing required field / invalid account id.
    let mut builder = FormatBuilder::new();
    let err = builder.payload_builder().account_id("").unwrap_err();
    assert!(matches!(err, PayloadError::InvalidAccountId(_)));

    // Unsupported encryption expectation during decode.
    let output = FormatBuilder::new().build().expect("payload should build");

    let strategy: Arc<dyn EncryptedHashStrategy> = Arc::new(TestStrategy::new([0xAA]));
    let mut options = CodecOptions::default();
    options.encryption = EncryptionMode::EncryptedHash(EncryptedHashConfig {
        strategy,
        key_id: None,
        nonce: None,
    });
    let codec = FrameCodec::new(options);

    let err = codec
        .decode(&output.bytes, &EncryptionContext::default())
        .unwrap_err();
    assert!(matches!(
        err,
        CodecError::InvalidHeader(message)
            if message == "plaintext payload encountered but codec expects encrypted hash"
    ));
}

#[test]
fn encrypted_round_trip_recovers_frame() {
    let strategy: Arc<dyn EncryptedHashStrategy> = Arc::new(TestStrategy::new([0x5A, 0x13]));
    let config = EncryptedHashConfig {
        strategy,
        key_id: Some("key-7".into()),
        nonce: None,
    };
    let mut options = CodecOptions::default();
    options.encryption = EncryptionMode::EncryptedHash(config);

    let context = EncryptionContext {
        channel_id: None,
        associated_data: Some(b"bound".to_vec()),
    };

    let mut builder = FormatBuilder::with_options(options.clone());
    builder
        .payload_builder()
        .account_id("acct_sealed")
        .unwrap()
        .text_field("content.title", "Sealed Track")
        .unwrap();
    let output = builder.encryption_context(context.clone()).build().unwrap();

    let codec = FrameCodec::new(options);
    let decoded = codec.decode(&output.bytes, &context).unwrap();
    assert_eq!(output.frame, decoded);
    assert_eq!(decoded.account_id().unwrap().as_str(), "acct_sealed");
}

#[test]
fn encrypted_envelope_rejected_by_plaintext_codec() {
    let strategy: Arc<dyn EncryptedHashStrategy> = Arc::new(TestStrategy::new([0x01]));
    let config = EncryptedHashConfig {
        strategy,
        key_id: None,
        nonce: None,
    };
    let mut options = CodecOptions::default();
    options.encryption = EncryptionMode::EncryptedHash(config);

    let mut builder = FormatBuilder::with_options(options);
    builder.payload_builder().account_id("acct_mix").unwrap();
    let output = builder.build().unwrap();

    let plain_codec = FrameCodec::new(CodecOptions::default());
    let err = plain_codec
        .decode(&output.bytes, &EncryptionContext::default())
        .unwrap_err();
    assert!(matches!(
        err,
        CodecError::InvalidHeader(message)
            if message == "received encrypted payload but codec is in plaintext mode"
    ));
}

#[test]
fn strategy_failures_surface_as_encryption_errors() {
    let sealer: Arc<dyn EncryptedHashStrategy> = Arc::new(TestStrategy::new([0xAA, 0x55]));
    let mut seal_options = CodecOptions::default();
    seal_options.encryption = EncryptionMode::EncryptedHash(EncryptedHashConfig {
        strategy: sealer,
        key_id: None,
        nonce: None,
    });
    let mut builder = FormatBuilder::with_options(seal_options);
    builder.payload_builder().account_id("acct_fail").unwrap();
    let output = builder.build().unwrap();

    // A codec holding a strategy with a different seed rejects the tag.
    let opener: Arc<dyn EncryptedHashStrategy> = Arc::new(TestStrategy::new([0x01]));
    let mut open_options = CodecOptions::default();
    open_options.encryption = EncryptionMode::EncryptedHash(EncryptedHashConfig {
        strategy: opener,
        key_id: None,
        nonce: None,
    });
    let codec = FrameCodec::new(open_options);
    let err = codec
        .decode(&output.bytes, &EncryptionContext::default())
        .unwrap_err();
    assert!(matches!(
        err,
        CodecError::Encryption(EncryptionError::CryptoFailure(_))
    ));
}
