//! Binary codec for payload frames.
//!
//! The codec turns a [`PayloadFrame`] into bytes and back.  All multi-byte
//! integers use little-endian byte order, and a compact static header
//! advertises protocol version and encryption envelope.  The byte layout is
//! specified in [`crate::format::wire`]; the functions here are proved
//! against that specification.

use vstd::bytes::spec_u16_from_le_bytes;
use vstd::prelude::*;
use vstd::string::StringExecFns;

use crate::format::encryption::EncryptedHashConfig;
use crate::format::encryption::EncryptionArtifacts;
use crate::format::encryption::EncryptionContext;
use crate::format::encryption::EncryptionError;
use crate::format::encryption::EncryptionMode;
use crate::format::model::default_constraints;
use crate::format::model::issued_at_key;
use crate::format::model::lemma_put_all_snoc;
use crate::format::model::put_all;
use crate::format::model::ts_in_range;
use crate::format::model::FieldV;
use crate::format::model::ValueV;
use crate::format::payload::AccountId;
use crate::format::payload::MetadataField;
use crate::format::payload::MetadataKey;
use crate::format::payload::MetadataTimestamp;
use crate::format::payload::MetadataValue;
use crate::format::payload::PayloadBuilder;
use crate::format::payload::PayloadConstraints;
use crate::format::payload::PayloadError;
use crate::format::payload::PayloadFrame;
use crate::format::encryption::encryption_error_message;
use crate::format::payload::payload_error_message;
use crate::format::util::bits_to_i64;
use crate::format::util::byte_to_hex_string;
use crate::format::util::dec_digits;
use crate::format::util::hex_byte_chars;
use crate::format::util::usize_to_string;
use crate::format::util::bytes_to_string;
use crate::format::util::i64_to_bits;
use crate::format::util::str_eq;
use crate::format::wire::body_bytes;
use crate::format::wire::encode_overflow;
use crate::format::wire::enc_body_bytes;
use crate::format::wire::header_bytes;
use crate::format::wire::le16;
use crate::format::wire::header_error;
use crate::format::wire::parse_body;
use crate::format::wire::parse_enc_body;
use crate::format::wire::parse_field;
use crate::format::wire::parse_fields;
use crate::format::wire::parse_key;
use crate::format::wire::parse_value;
use crate::format::wire::plain_decode;
use crate::format::wire::seed_field;
use crate::format::wire::lemma_encode_overflow_at;
use crate::format::wire::lemma_encode_overflow_none;
use crate::format::wire::lemma_records_snoc;
use crate::format::wire::overflow_label;
use crate::format::wire::record_bytes;
use crate::format::wire::records_bytes;
use crate::format::wire::tag_of;
use crate::format::wire::value_bytes;
use crate::format::wire::value_fits;
use crate::format::wire::CodecErrV;

verus! {

/// Semantic codec version (major.minor).  `decode` rejects a major
/// mismatch and accepts any minor version.
#[derive(Debug, Clone, Copy, PartialEq, Eq, Structural)]
pub struct FormatVersion {
    pub major: u8,
    pub minor: u8,
}

impl FormatVersion {
    /// Latest codec version supported by the library.
    pub fn latest() -> (r: FormatVersion)
        ensures
            r == (FormatVersion { major: 1, minor: 0 }),
    {
        FormatVersion { major: 1, minor: 0 }
    }
}

/// Envelope variants describing how payload bytes are wrapped.
#[derive(Debug, Clone, Copy, PartialEq, Eq, Structural)]
pub enum FrameEnvelope {
    Plain,
    EncryptedHash,
}

impl FrameEnvelope {
    /// The envelope named by a header flag byte, if the flag is known.
    pub fn from_flag(flag: u8) -> (r: Option<Self>)
        ensures
            flag == 0 ==> r == Some(FrameEnvelope::Plain),
            flag == 1 ==> r == Some(FrameEnvelope::EncryptedHash),
            flag != 0 && flag != 1 ==> r is None,
    {
        match flag {
            0 => Some(FrameEnvelope::Plain),
            1 => Some(FrameEnvelope::EncryptedHash),
            _ => None,
        }
    }

    /// The header flag byte that names this envelope.
    pub fn flag_byte(self) -> (r: u8)
        ensures
            self == FrameEnvelope::Plain ==> r == 0,
            self == FrameEnvelope::EncryptedHash ==> r == 1,
    {
        match self {
            FrameEnvelope::Plain => 0,
            FrameEnvelope::EncryptedHash => 1,
        }
    }
}

/// Codec configuration shared between encoding and decoding.
#[derive(Clone)]
pub struct CodecOptions {
    pub version: FormatVersion,
    pub constraints: PayloadConstraints,
    pub encryption: EncryptionMode,
}

impl Default for CodecOptions {
    /// The latest version, default constraints, and no encryption.
    fn default() -> (r: Self)
        ensures
            r.version == (FormatVersion { major: 1, minor: 0 }),
            r.constraints == default_constraints(),
            r.encryption is Plain,
    {
        CodecOptions {
            version: FormatVersion::latest(),
            constraints: PayloadConstraints::default(),
            encryption: EncryptionMode::Plain,
        }
    }
}

/// Errors produced during encoding and decoding.
#[derive(Debug, Clone)]
pub enum CodecError {
    InvalidHeader(&'static str),
    UnsupportedVersion { expected_major: u8, found: FormatVersion },
    UnexpectedEof,
    LengthOverflow(&'static str),
    InvalidUtf8(String),
    UnsupportedFieldType(u8),
    Payload(PayloadError),
    Encryption(EncryptionError),
}

impl View for CodecError {
    type V = CodecErrV;

    open spec fn view(&self) -> CodecErrV {
        match self {
            CodecError::InvalidHeader(reason) => CodecErrV::InvalidHeader(reason.view()),
            CodecError::UnsupportedVersion { expected_major, found } => CodecErrV::UnsupportedVersion {
                expected_major: *expected_major,
                found: *found,
            },
            CodecError::UnexpectedEof => CodecErrV::UnexpectedEof,
            CodecError::LengthOverflow(field) => CodecErrV::LengthOverflow(field.view()),
            CodecError::InvalidUtf8(field) => CodecErrV::InvalidUtf8(field@),
            CodecError::UnsupportedFieldType(tag) => CodecErrV::UnsupportedFieldType(*tag),
            CodecError::Payload(e) => CodecErrV::Payload(e@),
            CodecError::Encryption(e) => CodecErrV::Encryption(e@),
        }
    }
}

impl PartialEq for CodecError {
    fn eq(&self, other: &CodecError) -> (r: bool) {
        match (self, other) {
            (CodecError::InvalidHeader(a), CodecError::InvalidHeader(b)) => str_eq(a, b),
            (
                CodecError::UnsupportedVersion { expected_major: e1, found: f1 },
                CodecError::UnsupportedVersion { expected_major: e2, found: f2 },
            ) => *e1 == *e2 && *f1 == *f2,
            (CodecError::UnexpectedEof, CodecError::UnexpectedEof) => true,
            (CodecError::LengthOverflow(a), CodecError::LengthOverflow(b)) => str_eq(a, b),
            (CodecError::InvalidUtf8(a), CodecError::InvalidUtf8(b)) => *a == *b,
            (CodecError::UnsupportedFieldType(a), CodecError::UnsupportedFieldType(b)) => *a == *b,
            (CodecError::Payload(a), CodecError::Payload(b)) => *a == *b,
            (CodecError::Encryption(a), CodecError::Encryption(b)) => *a == *b,
            _ => false,
        }
    }
}

impl vstd::std_specs::cmp::PartialEqSpecImpl for CodecError {
    open spec fn obeys_eq_spec() -> bool {
        true
    }

    open spec fn eq_spec(&self, other: &CodecError) -> bool {
        self@ == other@
    }
}

/// The header flag byte that names an envelope.
pub open spec fn flag_of(e: FrameEnvelope) -> u8 {
    match e {
        FrameEnvelope::Plain => 0,
        FrameEnvelope::EncryptedHash => 1,
    }
}

impl FormatVersion {
    /// Appends the 8-byte frame header for this version and envelope.
    fn write_header(self, buffer: &mut Vec<u8>, envelope: FrameEnvelope)
        ensures
            final(buffer)@ == old(buffer)@ + header_bytes(self, flag_of(envelope)),
    {
        buffer.push(0x57);
        buffer.push(0x4D);
        buffer.push(self.major);
        buffer.push(self.minor);
        buffer.push(envelope.flag_byte());
        buffer.push(0);
        buffer.push(0);
        buffer.push(0);
        proof {
            assert(buffer@ =~= old(buffer)@ + header_bytes(self, flag_of(envelope)));
        }
    }
}

/// Appends one type tag and the tag-specific encoding of a value, or
/// reports which length field its size overflows.
fn write_tagged_value(buffer: &mut Vec<u8>, value: &MetadataValue) -> (r: Result<(), CodecError>)
    ensures
        value_fits(value@) ==> (r is Ok && final(buffer)@ == old(buffer)@ + seq![tag_of(value@)]
            + value_bytes(value@)),
        !value_fits(value@) ==> (r matches Err(e) && e@ == CodecErrV::LengthOverflow(
            overflow_label(value@),
        )),
{
    match value {
        MetadataValue::Account(account) => {
            let ab = account.as_str().as_bytes();
            if ab.len() > 0xFF {
                return Err(CodecError::LengthOverflow("account_id"));
            }
            buffer.push(0x01);
            buffer.push(ab.len() as u8);
            buffer.extend_from_slice(ab);
            proof {
                assert(buffer@ =~= old(buffer)@ + seq![tag_of(value@)] + value_bytes(value@));
            }
            Ok(())
        },
        MetadataValue::Timestamp(ts) => {
            let seconds = match ts.to_unix_seconds() {
                Ok(s) => s,
                Err(e) => {
                    return Err(CodecError::Payload(e));
                },
            };
            buffer.push(0x02);
            let mut sb = vstd::bytes::u64_to_le_bytes(i64_to_bits(seconds));
            buffer.append(&mut sb);
            proof {
                assert(buffer@ =~= old(buffer)@ + seq![tag_of(value@)] + value_bytes(value@));
            }
            Ok(())
        },
        MetadataValue::Text(text) => {
            let tb = text.as_str().as_bytes();
            if tb.len() > 0xFFFF {
                return Err(CodecError::LengthOverflow("text value"));
            }
            buffer.push(0x10);
            let mut lb = vstd::bytes::u16_to_le_bytes(tb.len() as u16);
            buffer.append(&mut lb);
            buffer.extend_from_slice(tb);
            proof {
                assert(buffer@ =~= old(buffer)@ + seq![tag_of(value@)] + value_bytes(value@));
            }
            Ok(())
        },
        MetadataValue::Integer(x) => {
            buffer.push(0x11);
            let mut xb = vstd::bytes::u64_to_le_bytes(i64_to_bits(*x));
            buffer.append(&mut xb);
            proof {
                assert(buffer@ =~= old(buffer)@ + seq![tag_of(value@)] + value_bytes(value@));
            }
            Ok(())
        },
        MetadataValue::Bool(b) => {
            buffer.push(0x12);
            buffer.push(
                if *b {
                    1
                } else {
                    0
                },
            );
            proof {
                assert(buffer@ =~= old(buffer)@ + seq![tag_of(value@)] + value_bytes(value@));
            }
            Ok(())
        },
        MetadataValue::Blob(bytes) => {
            if bytes.len() > 0xFFFF {
                return Err(CodecError::LengthOverflow("blob value"));
            }
            buffer.push(0x13);
            let mut lb = vstd::bytes::u16_to_le_bytes(bytes.len() as u16);
            buffer.append(&mut lb);
            buffer.extend_from_slice(bytes.as_slice());
            proof {
                assert(buffer@ =~= old(buffer)@ + seq![tag_of(value@)] + value_bytes(value@));
            }
            Ok(())
        },
    }
}

/// Binary encoder/decoder for [`PayloadFrame`]s.
#[derive(Clone)]
pub struct FrameCodec {
    options: CodecOptions,
}

impl FrameCodec {
    /// The options the codec was built with.
    pub closed spec fn spec_options(&self) -> CodecOptions {
        self.options
    }

    /// Construct a codec with the supplied options.
    pub fn new(options: CodecOptions) -> (r: Self)
        ensures
            r.spec_options() == options,
    {
        FrameCodec { options }
    }

    /// Returns the active codec options.
    pub fn options(&self) -> (r: &CodecOptions)
        ensures
            *r == self.spec_options(),
    {
        &self.options
    }

    /// Serializes the frame's fields into a plain envelope body.
    fn encode_plain(&self, frame: &PayloadFrame) -> (r: Result<Vec<u8>, CodecError>)
        ensures
            frame@.len() > 0xFFFF ==> (r matches Err(e) && e@ == CodecErrV::LengthOverflow(
                "field count"@,
            )),
            frame@.len() <= 0xFFFF ==> match encode_overflow(frame@) {
                Some(label) => r matches Err(e) && e@ == CodecErrV::LengthOverflow(label),
                None => r matches Ok(b) && b@ == body_bytes(frame@),
            },
    {
        let entries = frame.iter();
        let count = entries.len();
        if count > 0xFFFF {
            return Err(CodecError::LengthOverflow("field count"));
        }
        let mut buffer: Vec<u8> = Vec::new();
        let mut cb = vstd::bytes::u16_to_le_bytes(count as u16);
        buffer.append(&mut cb);
        proof {
            assert(frame@.take(0) =~= Seq::<crate::format::model::FieldV>::empty());
            assert(buffer@ =~= le16(frame@.len() as int) + records_bytes(frame@.take(0)));
        }
        let mut i: usize = 0;
        #[verifier::loop_isolation(false)]
        while i < count
            invariant
                0 <= i <= count,
                forall|j: int|
                    0 <= j < i ==> crate::format::wire::field_fits(#[trigger] frame@[j]),
                buffer@ == le16(frame@.len() as int) + records_bytes(frame@.take(i as int)),
            decreases count - i,
        {
            let field = &entries[i];
            let kb = field.key.as_str().as_bytes();
            if kb.len() > 0xFF {
                proof {
                    lemma_encode_overflow_at(frame@, i as int);
                }
                return Err(CodecError::LengthOverflow("metadata key"));
            }
            let ghost buffer_before = buffer@;
            buffer.push(kb.len() as u8);
            buffer.extend_from_slice(kb);
            match write_tagged_value(&mut buffer, &field.value) {
                Err(e) => {
                    proof {
                        lemma_encode_overflow_at(frame@, i as int);
                    }
                    return Err(e);
                },
                Ok(u) => {},
            }
            proof {
                assert(frame@.take(i + 1) =~= frame@.take(i as int).push(frame@[i as int]));
                lemma_records_snoc(frame@.take(i as int), frame@[i as int]);
                assert(buffer@ =~= buffer_before + record_bytes(frame@[i as int]));
                assert(buffer@ =~= le16(frame@.len() as int) + records_bytes(
                    frame@.take(i + 1),
                ));
            }
            i += 1;
        }
        proof {
            assert(frame@.take(count as int) =~= frame@);
            lemma_encode_overflow_none(frame@);
        }
        Ok(buffer)
    }

    /// Wraps a plain body with the frame header.
    fn wrap_plain(&self, body: Vec<u8>) -> (r: Vec<u8>)
        ensures
            r@ == header_bytes(self.spec_options().version, 0) + body@,
    {
        let mut buffer: Vec<u8> = Vec::new();
        self.options.version.write_header(&mut buffer, FrameEnvelope::Plain);
        let mut b = body;
        buffer.append(&mut b);
        proof {
            assert(buffer@ =~= header_bytes(self.spec_options().version, 0) + body@);
        }
        buffer
    }
}

/// Reads one tagged value starting at `vstart`, mirroring the parser
/// specification step for values.
#[verifier::rlimit(60)]
fn read_value(body: &[u8], vstart: usize, tag: u8) -> (r: Result<(MetadataValue, usize), CodecError>)
    requires
        vstart <= body@.len(),
    ensures
        match parse_value(body@.skip(vstart as int), tag) {
            Ok(p) => r matches Ok(q) && q.0@ == p.0 && p.1 == body@.skip(q.1 as int) && vstart
                <= q.1 <= body@.len(),
            Err(e) => r matches Err(ce) && ce@ == e,
        },
{
    let ghost vbs = body@.skip(vstart as int);
    if tag == 0x01 {
        if vstart >= body.len() {
            return Err(CodecError::UnexpectedEof);
        }
        let alen = body[vstart] as usize;
        proof {
            assert(vbs[0] == body@[vstart as int]);
        }
        if alen > body.len() - vstart - 1 {
            return Err(CodecError::UnexpectedEof);
        }
        let aend = vstart + 1 + alen;
        let acct_slice = vstd::slice::slice_subrange(body, vstart + 1, aend);
        proof {
            assert(vbs.subrange(1, 1 + alen as int) =~= body@.subrange(vstart + 1, aend as int));
        }
        let acct_string = match bytes_to_string(vstd::slice::slice_to_vec(acct_slice)) {
            Some(a) => a,
            None => {
                return Err(CodecError::InvalidUtf8("account_id".to_owned()));
            },
        };
        let account = match AccountId::new(acct_string.as_str()) {
            Ok(a) => a,
            Err(pe) => {
                return Err(CodecError::Payload(pe));
            },
        };
        proof {
            assert(vbs.skip(1 + alen as int) =~= body@.skip(aend as int));
        }
        Ok((MetadataValue::Account(account), aend))
    } else if tag == 0x02 {
        if body.len() - vstart < 8 {
            return Err(CodecError::UnexpectedEof);
        }
        let raw = vstd::bytes::u64_from_le_bytes(
            vstd::slice::slice_subrange(body, vstart, vstart + 8),
        );
        proof {
            assert(vbs.subrange(0, 8) =~= body@.subrange(vstart as int, vstart + 8));
        }
        let seconds = bits_to_i64(raw);
        let ts = match MetadataTimestamp::from_unix_seconds(seconds) {
            Ok(ts) => ts,
            Err(pe) => {
                return Err(CodecError::Payload(pe));
            },
        };
        proof {
            assert(vbs.skip(8) =~= body@.skip(vstart + 8));
        }
        Ok((MetadataValue::Timestamp(ts), vstart + 8))
    } else if tag == 0x10 {
        if body.len() - vstart < 2 {
            return Err(CodecError::UnexpectedEof);
        }
        let tlen = vstd::bytes::u16_from_le_bytes(
            vstd::slice::slice_subrange(body, vstart, vstart + 2),
        ) as usize;
        proof {
            assert(vbs.subrange(0, 2) =~= body@.subrange(vstart as int, vstart + 2));
        }
        if tlen > body.len() - vstart - 2 {
            return Err(CodecError::UnexpectedEof);
        }
        let tend = vstart + 2 + tlen;
        let text_slice = vstd::slice::slice_subrange(body, vstart + 2, tend);
        proof {
            assert(vbs.subrange(2, 2 + tlen as int) =~= body@.subrange(vstart + 2, tend as int));
        }
        let text = match bytes_to_string(vstd::slice::slice_to_vec(text_slice)) {
            Some(s) => s,
            None => {
                return Err(CodecError::InvalidUtf8("text value".to_owned()));
            },
        };
        proof {
            assert(vbs.skip(2 + tlen as int) =~= body@.skip(tend as int));
        }
        Ok((MetadataValue::Text(text), tend))
    } else if tag == 0x11 {
        if body.len() - vstart < 8 {
            return Err(CodecError::UnexpectedEof);
        }
        let raw = vstd::bytes::u64_from_le_bytes(
            vstd::slice::slice_subrange(body, vstart, vstart + 8),
        );
        proof {
            assert(vbs.subrange(0, 8) =~= body@.subrange(vstart as int, vstart + 8));
            assert(vbs.skip(8) =~= body@.skip(vstart + 8));
        }
        Ok((MetadataValue::Integer(bits_to_i64(raw)), vstart + 8))
    } else if tag == 0x12 {
        if vstart >= body.len() {
            return Err(CodecError::UnexpectedEof);
        }
        let byte = body[vstart];
        proof {
            assert(vbs[0] == body@[vstart as int]);
            assert(vbs.skip(1) =~= body@.skip(vstart + 1));
        }
        if byte == 0 {
            Ok((MetadataValue::Bool(false), vstart + 1))
        } else if byte == 1 {
            Ok((MetadataValue::Bool(true), vstart + 1))
        } else {
            Err(CodecError::InvalidHeader("boolean value must be 0 or 1"))
        }
    } else if tag == 0x13 {
        if body.len() - vstart < 2 {
            return Err(CodecError::UnexpectedEof);
        }
        let blen = vstd::bytes::u16_from_le_bytes(
            vstd::slice::slice_subrange(body, vstart, vstart + 2),
        ) as usize;
        proof {
            assert(vbs.subrange(0, 2) =~= body@.subrange(vstart as int, vstart + 2));
        }
        if blen > body.len() - vstart - 2 {
            return Err(CodecError::UnexpectedEof);
        }
        let bend = vstart + 2 + blen;
        let blob_slice = vstd::slice::slice_subrange(body, vstart + 2, bend);
        proof {
            assert(vbs.subrange(2, 2 + blen as int) =~= body@.subrange(vstart + 2, bend as int));
            assert(vbs.skip(2 + blen as int) =~= body@.skip(bend as int));
        }
        Ok((MetadataValue::Blob(vstd::slice::slice_to_vec(blob_slice)), bend))
    } else {
        Err(CodecError::UnsupportedFieldType(tag))
    }
}

/// Reads one field record starting at `offset`, mirroring the parser
/// specification step for fields.
#[verifier::rlimit(60)]
fn read_field(body: &[u8], offset: usize) -> (r: Result<(MetadataField, usize), CodecError>)
    requires
        offset <= body@.len(),
    ensures
        match parse_field(body@.skip(offset as int)) {
            Ok(p) => r matches Ok(q) && q.0@ == p.0 && p.1 == body@.skip(q.1 as int) && offset
                <= q.1 <= body@.len(),
            Err(e) => r matches Err(ce) && ce@ == e,
        },
{
    let ghost bs = body@.skip(offset as int);
    if offset >= body.len() {
        return Err(CodecError::UnexpectedEof);
    }
    let klen = body[offset] as usize;
    proof {
        assert(bs[0] == body@[offset as int]);
    }
    if klen > body.len() - offset - 1 {
        return Err(CodecError::UnexpectedEof);
    }
    let key_end = offset + 1 + klen;
    let key_slice = vstd::slice::slice_subrange(body, offset + 1, key_end);
    proof {
        assert(bs.subrange(1, 1 + klen as int) =~= body@.subrange(offset + 1, key_end as int));
    }
    let key_string = match bytes_to_string(vstd::slice::slice_to_vec(key_slice)) {
        Some(ks) => ks,
        None => {
            return Err(CodecError::InvalidUtf8("metadata key".to_owned()));
        },
    };
    proof {
        assert(parse_key(bs) == Ok::<(Seq<char>, Seq<u8>), CodecErrV>(
            (key_string@, bs.skip(1 + klen as int)),
        ));
    }
    let key = match MetadataKey::parse(key_string.as_str()) {
        Ok(kk) => kk,
        Err(pe) => {
            return Err(CodecError::Payload(pe));
        },
    };
    let ghost rest1 = bs.skip(1 + klen as int);
    proof {
        assert(rest1 =~= body@.skip(key_end as int));
    }
    if key_end >= body.len() {
        proof {
            assert(rest1.len() < 1);
        }
        return Err(CodecError::UnexpectedEof);
    }
    let tag = body[key_end];
    let vstart = key_end + 1;
    proof {
        assert(rest1[0] == body@[key_end as int]);
        assert(rest1.skip(1) =~= body@.skip(vstart as int));
    }
    match read_value(body, vstart, tag) {
        Ok(p) => {
            let (value, vend) = p;
            Ok((MetadataField::new(key, value), vend))
        },
        Err(e) => Err(e),
    }
}

impl FrameCodec {
    /// Parses a plain envelope body back into a frame, with the same bounds
    /// checks as encoding.  The rebuilt frame starts from a freshly seeded
    /// builder, so its `issued_at` seed is some in-range timestamp, always
    /// overwritten when the body itself carries an `issued_at` field.
    #[verifier::rlimit(80)]
    fn decode_plain(&self, body: &[u8]) -> (r: Result<PayloadFrame, CodecError>)
        ensures
            exists|t: int|
                #[trigger] ts_in_range(t) && match plain_decode(
                    body@,
                    self.spec_options().constraints,
                    t,
                ) {
                    Ok(m) => r matches Ok(f) && f@ == m && f.spec_constraints()
                        == self.spec_options().constraints && f.wf(),
                    Err(e) => r matches Err(ce) && ce@ == e,
                },
    {
        let ghost c = self.spec_options().constraints;
        if body.len() < 2 {
            proof {
                assert(ts_in_range(0) && plain_decode(body@, c, 0) == Err::<
                    Seq<FieldV>,
                    CodecErrV,
                >(CodecErrV::UnexpectedEof));
            }
            return Err(CodecError::UnexpectedEof);
        }
        let count = vstd::bytes::u16_from_le_bytes(
            vstd::slice::slice_subrange(body, 0, 2),
        ) as usize;
        let mut builder = PayloadBuilder::with_constraints(self.options.constraints);
        let ghost t = choose|t: int|
            ts_in_range(t) && builder@ == seq![
                (FieldV { key: issued_at_key(), value: ValueV::Timestamp(t) }),
            ];
        proof {
            assert(builder@ == seq![seed_field(t)]);
            assert(count == spec_u16_from_le_bytes(body@.subrange(0, 2)));
            let pr = parse_fields(body@.skip(2), count as nat, c);
            match pr {
                Ok(tail) => {
                    assert(Seq::<FieldV>::empty() + tail =~= tail);
                },
                Err(e) => {},
            }
        }
        let mut offset: usize = 2;
        let ghost mut acc = Seq::<FieldV>::empty();
        let mut k: usize = 0;
        #[verifier::loop_isolation(false)]
        while k < count
            invariant
                0 <= k <= count,
                2 <= offset <= body@.len(),
                builder.wf(),
                builder.spec_constraints() == c,
                builder@ == put_all(seq![seed_field(t)], acc),
                match parse_fields(body@.skip(offset as int), (count - k) as nat, c) {
                    Ok(tail) => parse_fields(body@.skip(2), count as nat, c) == Ok::<
                        Seq<FieldV>,
                        CodecErrV,
                    >(acc + tail),
                    Err(e) => parse_fields(body@.skip(2), count as nat, c) == Err::<
                        Seq<FieldV>,
                        CodecErrV,
                    >(e),
                },
            decreases count - k,
        {
            let ghost bs = body@.skip(offset as int);
            let (field, vend) = match read_field(body, offset) {
                Ok(p) => p,
                Err(e) => {
                    proof {
                        assert(parse_fields(bs, (count - k) as nat, c) == Err::<
                            Seq<FieldV>,
                            CodecErrV,
                        >(e@));
                    }
                    return Err(e);
                },
            };
            let ghost fv = field@;
            match builder.put_field(field) {
                Err(pe) => {
                    proof {
                        assert(parse_fields(bs, (count - k) as nat, c) == Err::<
                            Seq<FieldV>,
                            CodecErrV,
                        >(CodecErrV::Payload(pe@)));
                    }
                    return Err(CodecError::Payload(pe));
                },
                Ok(u) => {},
            }
            proof {
                let ghost acc_old = acc;
                lemma_put_all_snoc(seq![seed_field(t)], acc_old, fv);
                acc = acc.push(fv);
                let pr2 = parse_fields(body@.skip(vend as int), (count - k - 1) as nat, c);
                match pr2 {
                    Ok(tail2) => {
                        assert(parse_fields(bs, (count - k) as nat, c) == Ok::<
                            Seq<FieldV>,
                            CodecErrV,
                        >(seq![fv] + tail2));
                        assert(acc_old + (seq![fv] + tail2) =~= acc + tail2);
                    },
                    Err(e2) => {
                        assert(parse_fields(bs, (count - k) as nat, c) == Err::<
                            Seq<FieldV>,
                            CodecErrV,
                        >(e2));
                    },
                }
            }
            offset = vend;
            k += 1;
        }
        proof {
            assert(parse_fields(body@.skip(offset as int), 0, c) == Ok::<Seq<FieldV>, CodecErrV>(
                Seq::empty(),
            ));
            assert(acc + Seq::<FieldV>::empty() =~= acc);
            assert(parse_body(body@, c) == Ok::<Seq<FieldV>, CodecErrV>(acc));
        }
        match builder.build() {
            Ok(frame) => {
                proof {
                    assert(plain_decode(body@, c, t) == Ok::<Seq<FieldV>, CodecErrV>(frame@));
                }
                Ok(frame)
            },
            Err(pe) => {
                proof {
                    assert(plain_decode(body@, c, t) == Err::<Seq<FieldV>, CodecErrV>(
                        CodecErrV::Payload(pe@),
                    ));
                }
                Err(CodecError::Payload(pe))
            },
        }
    }
}

/// Rebuilds the artifacts a sealing strategy once produced from the three
/// parsed envelope sections, in their wire order: tag, strategy metadata,
/// sealed payload.  An empty tag or metadata section stands for a strategy
/// that produced none.
fn artifacts_from_sections(tag: &[u8], metadata: &[u8], sealed: &[u8]) -> (r: EncryptionArtifacts)
    ensures
        r.sealed_payload@ == sealed@,
        crate::format::encryption::opt_bytes(r.tag) == if tag@.len() > 0 {
            Some(tag@)
        } else {
            None::<Seq<u8>>
        },
        crate::format::encryption::opt_bytes(r.metadata) == if metadata@.len() > 0 {
            Some(metadata@)
        } else {
            None::<Seq<u8>>
        },
{
    EncryptionArtifacts {
        sealed_payload: vstd::slice::slice_to_vec(sealed),
        tag: if tag.len() > 0 {
            Some(vstd::slice::slice_to_vec(tag))
        } else {
            None
        },
        metadata: if metadata.len() > 0 {
            Some(vstd::slice::slice_to_vec(metadata))
        } else {
            None
        },
    }
}

impl FrameCodec {
    /// Wraps the artifacts a sealing strategy returned in the
    /// encrypted-hash envelope: header, three length prefixes, then tag,
    /// metadata, and sealed bytes.  Succeeds exactly when each section fits
    /// its wire width.
    pub fn wrap_sealed(&self, artifacts: &EncryptionArtifacts) -> (r: Result<Vec<u8>, CodecError>)
        ensures
            ({
                let tgs = crate::format::encryption::opt_bytes(artifacts.tag);
                let mts = crate::format::encryption::opt_bytes(artifacts.metadata);
                let tglen = if tgs is Some { tgs.unwrap().len() } else { 0 };
                let mtlen = if mts is Some { mts.unwrap().len() } else { 0 };
                if tglen > 0xFFFF {
                    r matches Err(e) && e@ == CodecErrV::LengthOverflow("tag"@)
                } else if mtlen > 0xFFFF {
                    r matches Err(e) && e@ == CodecErrV::LengthOverflow("encryption metadata"@)
                } else if artifacts.sealed_payload@.len() > 0xFFFF_FFFF {
                    r matches Err(e) && e@ == CodecErrV::LengthOverflow("sealed payload"@)
                } else {
                    r matches Ok(b) && b@ == header_bytes(self.spec_options().version, 1)
                        + enc_body_bytes(
                        if tgs is Some {
                            tgs.unwrap()
                        } else {
                            Seq::empty()
                        },
                        if mts is Some {
                            mts.unwrap()
                        } else {
                            Seq::empty()
                        },
                        artifacts.sealed_payload@,
                    )
                }
            }),
    {
        let tag_len = match &artifacts.tag {
            Some(tb) => tb.len(),
            None => 0,
        };
        if tag_len > 0xFFFF {
            return Err(CodecError::LengthOverflow("tag"));
        }
        let meta_len = match &artifacts.metadata {
            Some(mb) => mb.len(),
            None => 0,
        };
        if meta_len > 0xFFFF {
            return Err(CodecError::LengthOverflow("encryption metadata"));
        }
        if artifacts.sealed_payload.len() > 0xFFFF_FFFFusize {
            return Err(CodecError::LengthOverflow("sealed payload"));
        }
        let ghost tgs: Seq<u8> = match &artifacts.tag {
            Some(tb) => tb@,
            None => Seq::empty(),
        };
        let ghost mts: Seq<u8> = match &artifacts.metadata {
            Some(mb) => mb@,
            None => Seq::empty(),
        };
        let mut buffer: Vec<u8> = Vec::new();
        self.options.version.write_header(&mut buffer, FrameEnvelope::EncryptedHash);
        let mut tl = vstd::bytes::u16_to_le_bytes(tag_len as u16);
        buffer.append(&mut tl);
        let mut ml = vstd::bytes::u16_to_le_bytes(meta_len as u16);
        buffer.append(&mut ml);
        let mut sl = vstd::bytes::u32_to_le_bytes(artifacts.sealed_payload.len() as u32);
        buffer.append(&mut sl);
        match &artifacts.tag {
            Some(tb) => {
                buffer.extend_from_slice(tb.as_slice());
            },
            None => {},
        }
        match &artifacts.metadata {
            Some(mb) => {
                buffer.extend_from_slice(mb.as_slice());
            },
            None => {},
        }
        buffer.extend_from_slice(artifacts.sealed_payload.as_slice());
        proof {
            assert(buffer@ =~= header_bytes(self.spec_options().version, 1) + enc_body_bytes(
                tgs,
                mts,
                artifacts.sealed_payload@,
            ));
        }
        Ok(buffer)
    }

    /// Seals a plain body with the configured strategy and frames the
    /// returned artifacts with [`FrameCodec::wrap_sealed`].  What the
    /// strategy returns is its own affair; whatever came back is framed
    /// exactly or rejected as oversized.
    fn wrap_encrypted(&self, body: Vec<u8>, config: &EncryptedHashConfig, context: &EncryptionContext) -> (r: Result<Vec<u8>, CodecError>)
        ensures
            r matches Ok(b) ==> exists|tg: Seq<u8>, mt: Seq<u8>, sl: Seq<u8>|
                tg.len() <= 0xFFFF && mt.len() <= 0xFFFF && sl.len() <= 0xFFFF_FFFF && b@
                    == header_bytes(self.spec_options().version, 1) + #[trigger] enc_body_bytes(
                    tg,
                    mt,
                    sl,
                ),
            r matches Err(e) ==> (e@ matches CodecErrV::Encryption(_) || e@
                == CodecErrV::LengthOverflow("tag"@) || e@ == CodecErrV::LengthOverflow(
                "encryption metadata"@,
            ) || e@ == CodecErrV::LengthOverflow("sealed payload"@)),
    {
        let artifacts = match config.strategy.seal(body.as_slice(), context) {
            Ok(a) => a,
            Err(e) => {
                return Err(CodecError::Encryption(e));
            },
        };
        self.wrap_sealed(&artifacts)
    }

    /// Parses the three encrypted-envelope sections and asks the configured
    /// strategy to open the sealed bytes.  A codec configured without a
    /// strategy rejects the envelope outright.
    fn unwrap_encrypted(&self, payload: &[u8], context: &EncryptionContext) -> (r: Result<Vec<u8>, CodecError>)
        ensures
            self.spec_options().encryption is Plain ==> (r matches Err(e) && e@
                == CodecErrV::InvalidHeader(
                "received encrypted payload but codec is in plaintext mode"@,
            )),
            self.spec_options().encryption is EncryptedHash ==> match parse_enc_body(payload@) {
                Err(e0) => r matches Err(ce) && ce@ == e0,
                Ok(sections) => r matches Err(ce) ==> ce@ matches CodecErrV::Encryption(_),
            },
    {
        let config = match &self.options.encryption {
            EncryptionMode::EncryptedHash(cfg) => cfg,
            EncryptionMode::Plain => {
                return Err(
                    CodecError::InvalidHeader(
                        "received encrypted payload but codec is in plaintext mode",
                    ),
                );
            },
        };
        if payload.len() < 8 {
            return Err(CodecError::UnexpectedEof);
        }
        let tag_len = vstd::bytes::u16_from_le_bytes(
            vstd::slice::slice_subrange(payload, 0, 2),
        ) as usize;
        let meta_len = vstd::bytes::u16_from_le_bytes(
            vstd::slice::slice_subrange(payload, 2, 4),
        ) as usize;
        let sealed_len = vstd::bytes::u32_from_le_bytes(
            vstd::slice::slice_subrange(payload, 4, 8),
        ) as usize;
        let total = payload.len();
        if (tag_len as u64) + (meta_len as u64) + (sealed_len as u64) > (total as u64) - 8 {
            return Err(CodecError::UnexpectedEof);
        }
        let o1 = 8 + tag_len;
        let o2 = o1 + meta_len;
        let o3 = o2 + sealed_len;
        let tag_slice = vstd::slice::slice_subrange(payload, 8, o1);
        let meta_slice = vstd::slice::slice_subrange(payload, o1, o2);
        let sealed_slice = vstd::slice::slice_subrange(payload, o2, o3);
        let ghost sections = parse_enc_body(payload@);
        proof {
            assert(sections matches Ok(p) && p.0 == tag_slice@ && p.1 == meta_slice@ && p.2
                == sealed_slice@);
        }
        let artifacts = artifacts_from_sections(tag_slice, meta_slice, sealed_slice);
        match config.strategy.open(artifacts.sealed_payload.as_slice(), &artifacts, context) {
            Ok(plain) => Ok(plain),
            Err(e) => Err(CodecError::Encryption(e)),
        }
    }

    /// Serializes a payload frame into bytes, applying the configured
    /// encryption mode.  Length fields that cannot fit their wire width are
    /// an error, never a silent truncation.
    pub fn encode(&self, frame: &PayloadFrame, context: &EncryptionContext) -> (r: Result<Vec<u8>, CodecError>)
        ensures
            frame@.len() > 0xFFFF ==> (r matches Err(e) && e@ == CodecErrV::LengthOverflow(
                "field count"@,
            )),
            frame@.len() <= 0xFFFF ==> (match encode_overflow(frame@) {
                Some(label) => r matches Err(e) && e@ == CodecErrV::LengthOverflow(label),
                None => true,
            }),
            frame@.len() <= 0xFFFF && encode_overflow(frame@) is None ==> match self.spec_options().encryption {
                EncryptionMode::Plain => r matches Ok(b) && b@ == header_bytes(
                    self.spec_options().version,
                    0,
                ) + body_bytes(frame@),
                EncryptionMode::EncryptedHash(_) => match r {
                    Ok(b) => exists|tg: Seq<u8>, mt: Seq<u8>, sl: Seq<u8>|
                        tg.len() <= 0xFFFF && mt.len() <= 0xFFFF && sl.len() <= 0xFFFF_FFFF && b@
                            == header_bytes(self.spec_options().version, 1)
                            + #[trigger] enc_body_bytes(tg, mt, sl),
                    Err(e) => e@ matches CodecErrV::Encryption(_) || e@
                        == CodecErrV::LengthOverflow("tag"@) || e@ == CodecErrV::LengthOverflow(
                        "encryption metadata"@,
                    ) || e@ == CodecErrV::LengthOverflow("sealed payload"@),
                },
            },
            r matches Ok(b) ==> b@.len() >= 8 && b@[0] == 0x57 && b@[1] == 0x4D && b@[2]
                == self.spec_options().version.major && b@[3] == self.spec_options().version.minor
                && b@[4] == (if self.spec_options().encryption is Plain {
                0u8
            } else {
                1u8
            }),
    {
        let plain_body = match self.encode_plain(frame) {
            Ok(b) => b,
            Err(e) => {
                return Err(e);
            },
        };
        match &self.options.encryption {
            EncryptionMode::Plain => {
                let out = self.wrap_plain(plain_body);
                proof {
                    assert(out@[4] == 0);
                }
                Ok(out)
            },
            EncryptionMode::EncryptedHash(config) => {
                let out = self.wrap_encrypted(plain_body, config, context);
                proof {
                    match &out {
                        Ok(b) => {
                            let (tg, mt, sl) = choose|tg: Seq<u8>, mt: Seq<u8>, sl: Seq<u8>|
                                tg.len() <= 0xFFFF && mt.len() <= 0xFFFF && sl.len()
                                    <= 0xFFFF_FFFF && b@ == header_bytes(
                                    self.spec_options().version,
                                    1,
                                ) + #[trigger] enc_body_bytes(tg, mt, sl);
                            assert(b@[4] == 1);
                        },
                        Err(e) => {},
                    }
                }
                out
            },
        }
    }

    /// Decodes bytes into a payload frame, verifying the header, the
    /// version, and the envelope against the codec's configuration, and
    /// re-validating every field against the constraints.
    pub fn decode(&self, bytes: &[u8], context: &EncryptionContext) -> (r: Result<PayloadFrame, CodecError>)
        ensures
            match header_error(
                bytes@,
                self.spec_options().version,
                self.spec_options().encryption is EncryptedHash,
            ) {
                Some(e) => r matches Err(ce) && ce@ == e,
                None => if bytes@[4] == 0 {
                    exists|t: int|
                        #[trigger] ts_in_range(t) && match plain_decode(
                            bytes@.skip(8),
                            self.spec_options().constraints,
                            t,
                        ) {
                            Ok(m) => r matches Ok(f) && f@ == m && f.spec_constraints()
                                == self.spec_options().constraints && f.wf(),
                            Err(e) => r matches Err(ce) && ce@ == e,
                        }
                } else {
                    match parse_enc_body(bytes@.skip(8)) {
                        Err(e0) => r matches Err(ce) && ce@ == e0,
                        Ok(sections) => match r {
                            Ok(f) => f.spec_constraints() == self.spec_options().constraints
                                && f.wf() && exists|plain: Seq<u8>, t: int|
                                ts_in_range(t) && #[trigger] plain_decode(
                                    plain,
                                    self.spec_options().constraints,
                                    t,
                                ) == Ok::<Seq<FieldV>, CodecErrV>(f@),
                            Err(ce) => ce@ matches CodecErrV::Encryption(_) || exists|
                                plain: Seq<u8>,
                                t: int,
                            |
                                ts_in_range(t) && #[trigger] plain_decode(
                                    plain,
                                    self.spec_options().constraints,
                                    t,
                                ) == Err::<Seq<FieldV>, CodecErrV>(ce@),
                        },
                    }
                },
            },
    {
        if bytes.len() < 8 {
            return Err(CodecError::UnexpectedEof);
        }
        if bytes[0] != 0x57 || bytes[1] != 0x4D {
            return Err(CodecError::InvalidHeader("magic mismatch"));
        }
        let found = FormatVersion { major: bytes[2], minor: bytes[3] };
        if found.major != self.options.version.major {
            return Err(
                CodecError::UnsupportedVersion {
                    expected_major: self.options.version.major,
                    found,
                },
            );
        }
        let flag = bytes[4];
        let envelope = match FrameEnvelope::from_flag(flag) {
            Some(env) => env,
            None => {
                return Err(CodecError::InvalidHeader("unknown envelope flag"));
            },
        };
        let expects_hash = self.options.encryption.is_encrypted_hash();
        if matches!(envelope, FrameEnvelope::Plain) && expects_hash {
            return Err(
                CodecError::InvalidHeader(
                    "plaintext payload encountered but codec expects encrypted hash",
                ),
            );
        }
        let payload = vstd::slice::slice_subrange(bytes, 8, bytes.len());
        proof {
            assert(payload@ =~= bytes@.skip(8));
        }
        match envelope {
            FrameEnvelope::Plain => self.decode_plain(payload),
            FrameEnvelope::EncryptedHash => {
                let plain = match self.unwrap_encrypted(payload, context) {
                    Ok(p) => p,
                    Err(e) => {
                        return Err(e);
                    },
                };
                self.decode_plain(plain.as_slice())
            },
        }
    }
}

/// The human-readable description of a codec error.
pub open spec fn codec_error_message(e: CodecErrV) -> Seq<char> {
    match e {
        CodecErrV::InvalidHeader(reason) => "invalid codec header: "@ + reason,
        CodecErrV::UnsupportedVersion { expected_major, found } => (
        "unsupported payload version: expected major "@ + dec_digits(expected_major as int)
            + " but found "@ + dec_digits(found.major as int) + "."@ + dec_digits(
            found.minor as int,
        )),
        CodecErrV::UnexpectedEof => "unexpected end of payload"@,
        CodecErrV::LengthOverflow(field) => field + " exceeds representable length"@,
        CodecErrV::InvalidUtf8(field) => field + " is not valid UTF-8"@,
        CodecErrV::UnsupportedFieldType(tag) => "unsupported field type tag 0x"@ + hex_byte_chars(
            tag,
        ),
        CodecErrV::Payload(pe) => payload_error_message(pe),
        CodecErrV::Encryption(ee) => encryption_error_message(ee),
    }
}

impl CodecError {
    /// Renders the error for logs and messages.
    pub fn message(&self) -> (r: String)
        ensures
            r@ == codec_error_message(self@),
    {
        match self {
            CodecError::InvalidHeader(reason) => {
                let mut s = "invalid codec header: ".to_owned();
                s.append(reason);
                s
            },
            CodecError::UnsupportedVersion { expected_major, found } => {
                let mut s = "unsupported payload version: expected major ".to_owned();
                let expected_digits = usize_to_string(*expected_major as usize);
                s.append(expected_digits.as_str());
                s.append(" but found ");
                let major_digits = usize_to_string(found.major as usize);
                s.append(major_digits.as_str());
                s.append(".");
                let minor_digits = usize_to_string(found.minor as usize);
                s.append(minor_digits.as_str());
                s
            },
            CodecError::UnexpectedEof => "unexpected end of payload".to_owned(),
            CodecError::LengthOverflow(field) => {
                let mut s: String = (*field).to_owned();
                s.append(" exceeds representable length");
                s
            },
            CodecError::InvalidUtf8(field) => {
                let mut s = field.clone();
                s.append(" is not valid UTF-8");
                s
            },
            CodecError::UnsupportedFieldType(tag) => {
                let mut s = "unsupported field type tag 0x".to_owned();
                let hex = byte_to_hex_string(*tag);
                s.append(hex.as_str());
                s
            },
            CodecError::Payload(pe) => pe.message(),
            CodecError::Encryption(ee) => ee.message(),
        }
    }
}

} // verus!
