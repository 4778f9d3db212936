//! Payload formatting facade.
//!
//! This module composes the data model ([`payload`]), the encryption
//! abstraction ([`encryption`]), and the binary codec ([`codec`]) into an
//! ergonomic builder for producers.

pub mod codec;
pub mod encryption;
pub mod laws;
pub mod model;
pub mod payload;
pub mod util;
pub mod wire;

use vstd::prelude::*;

use crate::format::codec::CodecError;
use crate::format::codec::CodecOptions;
use crate::format::codec::FrameCodec;
use crate::format::encryption::EncryptionContext;
use crate::format::encryption::EncryptionMode;
use crate::format::model::extend_result;
use crate::format::model::put;
use crate::format::model::validate_field;
use crate::format::model::FieldV;
use crate::format::model::PayloadErrV;
use crate::format::model::ValueV;
use crate::format::payload::views_of;
use crate::format::payload::MetadataField;
use crate::format::payload::PayloadBuilder;
use crate::format::payload::PayloadError;
use crate::format::payload::PayloadFrame;
use crate::format::wire::body_bytes;
use crate::format::wire::enc_body_bytes;
use crate::format::wire::encode_overflow;
use crate::format::wire::header_bytes;
use crate::format::wire::CodecErrV;

verus! {

/// Builder that collects metadata fields, configures encryption, and yields
/// ready-to-embed byte payloads.
pub struct FormatBuilder {
    payload: PayloadBuilder,
    codec: FrameCodec,
    encryption_context: EncryptionContext,
}

/// Output of [`FormatBuilder::build`]: the logical frame and its bytes.
#[derive(Debug, Clone)]
pub struct FormatOutput {
    pub frame: PayloadFrame,
    pub bytes: Vec<u8>,
}

impl FormatOutput {
    /// Consumes the output, returning just the byte payload.
    pub fn into_bytes(self) -> (r: Vec<u8>)
        ensures
            r@ == self.bytes@,
    {
        self.bytes
    }
}

impl FormatBuilder {
    /// The accumulated metadata fields.
    pub closed spec fn spec_fields(&self) -> Seq<FieldV> {
        self.payload@
    }

    /// The payload builder inside the facade.
    pub closed spec fn spec_payload(&self) -> PayloadBuilder {
        self.payload
    }

    /// The codec options currently bound.
    pub closed spec fn spec_options(&self) -> CodecOptions {
        self.codec.spec_options()
    }

    /// The ambient encryption context.
    pub closed spec fn spec_context(&self) -> EncryptionContext {
        self.encryption_context
    }

    /// Facade invariant: the payload builder is well formed and enforces
    /// the same constraints the codec is bound to.
    pub open spec fn wf(&self) -> bool {
        self.spec_payload().wf() && self.spec_payload().spec_constraints()
            == self.spec_options().constraints && self.spec_fields() == self.spec_payload()@
    }

    /// Start a builder with default payload constraints and no encryption.
    pub fn new() -> (r: Self)
        ensures
            r.wf(),
            r.spec_options().version == (crate::format::codec::FormatVersion { major: 1, minor: 0 }),
            r.spec_options().constraints == crate::format::model::default_constraints(),
            r.spec_options().encryption is Plain,
            r.spec_context().channel_id is None,
            r.spec_context().associated_data is None,
            r.spec_fields().len() == 1,
            r.spec_fields()[0].key == crate::format::model::issued_at_key(),
            r.spec_fields()[0].value is Timestamp,
    {
        Self::with_options(CodecOptions::default())
    }

    /// Start a builder with explicit codec options.
    pub fn with_options(options: CodecOptions) -> (r: Self)
        ensures
            r.wf(),
            r.spec_options() == options,
            r.spec_context().channel_id is None,
            r.spec_context().associated_data is None,
            r.spec_fields().len() == 1,
            r.spec_fields()[0].key == crate::format::model::issued_at_key(),
            r.spec_fields()[0].value is Timestamp,
    {
        let payload = PayloadBuilder::with_constraints(options.constraints);
        FormatBuilder {
            payload,
            codec: FrameCodec::new(options),
            encryption_context: EncryptionContext::default(),
        }
    }

    /// Specify the encryption mode to use when serializing the payload,
    /// rebuilding the codec with updated options.
    pub fn encryption_mode(self, mode: EncryptionMode) -> (r: Self)
        ensures
            r.spec_options().version == self.spec_options().version,
            r.spec_options().constraints == self.spec_options().constraints,
            r.spec_options().encryption == mode,
            r.spec_payload() == self.spec_payload(),
            r.spec_fields() == self.spec_fields(),
            r.spec_context() == self.spec_context(),
            self.wf() ==> r.wf(),
    {
        let opts = self.codec.options();
        let rebuilt = CodecOptions {
            version: opts.version,
            constraints: opts.constraints,
            encryption: mode,
        };
        FormatBuilder {
            payload: self.payload,
            codec: FrameCodec::new(rebuilt),
            encryption_context: self.encryption_context,
        }
    }

    /// Provide ambient encryption context (AAD, channel identifiers, etc.).
    pub fn encryption_context(self, context: EncryptionContext) -> (r: Self)
        ensures
            r.spec_options() == self.spec_options(),
            r.spec_payload() == self.spec_payload(),
            r.spec_fields() == self.spec_fields(),
            r.spec_context() == context,
            self.wf() ==> r.wf(),
    {
        FormatBuilder { payload: self.payload, codec: self.codec, encryption_context: context }
    }

    /// Insert a metadata field directly.
    pub fn field(self, field: MetadataField) -> (r: Result<Self, PayloadError>)
        ensures
            self.wf() ==> match validate_field(field@, self.spec_options().constraints) {
                Some(e) => r matches Err(pe) && pe@ == e,
                None => r matches Ok(b) && b.wf() && b.spec_fields() == put(
                    self.spec_fields(),
                    field@,
                ) && b.spec_options() == self.spec_options() && b.spec_context()
                    == self.spec_context(),
            },
    {
        let mut this = self;
        match this.payload.put_field(field) {
            Ok(u) => {},
            Err(e) => {
                return Err(e);
            },
        }
        Ok(this)
    }

    /// Extend the builder with multiple fields.
    pub fn fields(self, fields: Vec<MetadataField>) -> (r: Result<Self, PayloadError>)
        ensures
            self.wf() ==> match extend_result(
                self.spec_fields(),
                views_of(fields@),
                self.spec_options().constraints,
            ) {
                Ok(m) => r matches Ok(b) && b.wf() && b.spec_fields() == m && b.spec_options()
                    == self.spec_options() && b.spec_context() == self.spec_context(),
                Err(e) => r matches Err(pe) && pe@ == e,
            },
    {
        let mut this = self;
        match this.payload.extend_fields(fields) {
            Ok(u) => {},
            Err(e) => {
                return Err(e);
            },
        }
        Ok(this)
    }

    /// Access the underlying payload builder to use typed helpers.
    pub fn payload_builder(&mut self) -> (r: &mut PayloadBuilder)
        ensures
            *r == old(self).spec_payload(),
            final(self).spec_payload() == *final(r),
            final(self).spec_fields() == final(r)@,
            final(self).spec_options() == old(self).spec_options(),
            final(self).spec_context() == old(self).spec_context(),
    {
        &mut self.payload
    }

    /// Consume the builder, returning both the frame and its bytes.
    pub fn build(self) -> (r: Result<FormatOutput, CodecError>)
        ensures
            self.wf() ==> (if self.spec_fields().len() > self.spec_options().constraints.max_fields {
                r matches Err(e) && e@ == CodecErrV::Payload(
                    PayloadErrV::TooManyFields {
                        limit: self.spec_options().constraints.max_fields as int,
                    },
                )
            } else if self.spec_fields().len() > 0xFFFF {
                r matches Err(e) && e@ == CodecErrV::LengthOverflow("field count"@)
            } else {
                match encode_overflow(self.spec_fields()) {
                    Some(label) => r matches Err(e) && e@ == CodecErrV::LengthOverflow(label),
                    None => match self.spec_options().encryption {
                        EncryptionMode::Plain => r matches Ok(out) && out.frame@
                            == self.spec_fields() && out.frame.wf() && out.frame.spec_constraints()
                            == self.spec_options().constraints && out.bytes@ == header_bytes(
                            self.spec_options().version,
                            0,
                        ) + body_bytes(self.spec_fields()),
                        EncryptionMode::EncryptedHash(_) => match r {
                            Ok(out) => out.frame@ == self.spec_fields() && out.frame.wf()
                                && (exists|tg: Seq<u8>, mt: Seq<u8>, sl: Seq<u8>|
                                tg.len() <= 0xFFFF && mt.len() <= 0xFFFF && sl.len()
                                    <= 0xFFFF_FFFF && out.bytes@ == header_bytes(
                                    self.spec_options().version,
                                    1,
                                ) + #[trigger] enc_body_bytes(tg, mt, sl)),
                            Err(e) => e@ matches CodecErrV::Encryption(_) || e@
                                == CodecErrV::LengthOverflow("tag"@) || e@
                                == CodecErrV::LengthOverflow("encryption metadata"@) || e@
                                == CodecErrV::LengthOverflow("sealed payload"@),
                        },
                    },
                }
            }),
    {
        let frame = match self.payload.build() {
            Ok(f) => f,
            Err(e) => {
                return Err(CodecError::Payload(e));
            },
        };
        let bytes = match self.codec.encode(&frame, &self.encryption_context) {
            Ok(b) => b,
            Err(e) => {
                return Err(e);
            },
        };
        Ok(FormatOutput { frame, bytes })
    }
}

impl Default for FormatBuilder {
    /// Same as [`FormatBuilder::new`]: default payload constraints, no
    /// encryption, an empty context, and the seeded `issued_at` field.
    fn default() -> (r: Self)
        ensures
            r.wf(),
            r.spec_options().version == (crate::format::codec::FormatVersion { major: 1, minor: 0 }),
            r.spec_options().constraints == crate::format::model::default_constraints(),
            r.spec_options().encryption is Plain,
            r.spec_context().channel_id is None,
            r.spec_context().associated_data is None,
            r.spec_fields().len() == 1,
            r.spec_fields()[0].key == crate::format::model::issued_at_key(),
            r.spec_fields()[0].value is Timestamp,
    {
        Self::new()
    }
}

} // verus!
