//! Byte-level specification of the frame format.
//!
//! The wire layout is: an 8-byte header (magic `0x57 0x4D`, major and minor
//! version, envelope flag, three reserved zero bytes), followed by the
//! envelope body.  A plain body is a little-endian `u16` field count and one
//! record per field; an encrypted-hash body is three length prefixes
//! followed by tag, strategy metadata, and sealed bytes.  This module
//! defines the byte image of a field map, the parser that reads one back,
//! and the round-trip theorems connecting the two.

use vstd::bytes::spec_u16_from_le_bytes;
use vstd::bytes::spec_u16_to_le_bytes;
use vstd::bytes::spec_u32_from_le_bytes;
use vstd::bytes::spec_u32_to_le_bytes;
use vstd::bytes::spec_u64_from_le_bytes;
use vstd::bytes::spec_u64_to_le_bytes;
use vstd::prelude::*;
use vstd::utf8::decode_utf8;
use vstd::utf8::encode_utf8;
use vstd::utf8::valid_utf8;

use crate::format::codec::FormatVersion;
use crate::format::model::account_new_error;
use crate::format::model::has_key;
use crate::format::model::issued_at_key;
use crate::format::model::key_bytes;
use crate::format::model::key_chars;
use crate::format::model::key_of_chars;
use crate::format::model::put_all;
use crate::format::model::sorted_fields;
use crate::format::model::ts_in_range;
use crate::format::model::ts_new_error;
use crate::format::model::valid_account_chars;
use crate::format::model::validate_field;
use crate::format::model::FieldV;
use crate::format::model::KeyV;
use crate::format::model::PayloadErrV;
use crate::format::model::ValueV;
use crate::format::encryption::EncErrV;
use crate::format::payload::PayloadConstraints;
use crate::format::payload::WellKnownField;
use crate::format::util::lemma_valid_account_not_all_white;

verus! {

/// Ghost view of a codec error.
pub enum CodecErrV {
    InvalidHeader(Seq<char>),
    UnsupportedVersion { expected_major: u8, found: FormatVersion },
    UnexpectedEof,
    LengthOverflow(Seq<char>),
    InvalidUtf8(Seq<char>),
    UnsupportedFieldType(u8),
    Payload(PayloadErrV),
    Encryption(EncErrV),
}

/// Two's-complement image of a signed 64-bit count of seconds.
pub open spec fn i64_bits(x: int) -> u64
    recommends
        -0x8000_0000_0000_0000 <= x < 0x8000_0000_0000_0000,
{
    if x >= 0 {
        x as u64
    } else {
        (x + 0x1_0000_0000_0000_0000) as u64
    }
}

/// Signed value of a two's-complement 64-bit image.
pub open spec fn bits_i64(u: u64) -> int {
    if u < 0x8000_0000_0000_0000 {
        u as int
    } else {
        u - 0x1_0000_0000_0000_0000
    }
}

pub proof fn lemma_i64_bits_roundtrip(x: int)
    requires
        -0x8000_0000_0000_0000 <= x < 0x8000_0000_0000_0000,
    ensures
        bits_i64(i64_bits(x)) == x,
{
}

/// Little-endian image of a 16-bit length or count.
pub open spec fn le16(n: int) -> Seq<u8>
    recommends
        0 <= n <= 0xFFFF,
{
    spec_u16_to_le_bytes(n as u16)
}

/// Little-endian image of a 32-bit length.
pub open spec fn le32(n: int) -> Seq<u8>
    recommends
        0 <= n <= 0xFFFF_FFFF,
{
    spec_u32_to_le_bytes(n as u32)
}

/// Wire type tag of a value.
pub open spec fn tag_of(v: ValueV) -> u8 {
    match v {
        ValueV::Account(_) => 0x01,
        ValueV::Timestamp(_) => 0x02,
        ValueV::Text(_) => 0x10,
        ValueV::Integer(_) => 0x11,
        ValueV::Bool(_) => 0x12,
        ValueV::Blob(_) => 0x13,
    }
}

/// Tag-specific byte image of a value.
pub open spec fn value_bytes(v: ValueV) -> Seq<u8> {
    match v {
        ValueV::Account(s) => seq![encode_utf8(s).len() as u8] + encode_utf8(s),
        ValueV::Timestamp(t) => spec_u64_to_le_bytes(i64_bits(t)),
        ValueV::Text(s) => le16(encode_utf8(s).len() as int) + encode_utf8(s),
        ValueV::Integer(x) => spec_u64_to_le_bytes(i64_bits(x)),
        ValueV::Bool(b) => seq![
            if b {
                1u8
            } else {
                0u8
            },
        ],
        ValueV::Blob(bs) => le16(bs.len() as int) + bs,
    }
}

/// Byte image of one field record: length-prefixed key, type tag, value.
pub open spec fn record_bytes(f: FieldV) -> Seq<u8> {
    seq![key_bytes(f.key).len() as u8] + key_bytes(f.key) + seq![tag_of(f.value)] + value_bytes(
        f.value,
    )
}

/// Byte image of a run of field records.
pub open spec fn records_bytes(s: Seq<FieldV>) -> Seq<u8>
    decreases s.len(),
{
    if s.len() == 0 {
        Seq::empty()
    } else {
        record_bytes(s[0]) + records_bytes(s.drop_first())
    }
}

/// Byte image of a plain envelope body: field count, then the records.
pub open spec fn body_bytes(s: Seq<FieldV>) -> Seq<u8> {
    le16(s.len() as int) + records_bytes(s)
}

/// Whether a value fits the width of its wire length field.
pub open spec fn value_fits(v: ValueV) -> bool {
    match v {
        ValueV::Account(s) => encode_utf8(s).len() <= 0xFF,
        ValueV::Timestamp(t) => -0x8000_0000_0000_0000 <= t < 0x8000_0000_0000_0000,
        ValueV::Text(s) => encode_utf8(s).len() <= 0xFFFF,
        ValueV::Integer(x) => -0x8000_0000_0000_0000 <= x < 0x8000_0000_0000_0000,
        ValueV::Bool(_) => true,
        ValueV::Blob(bs) => bs.len() <= 0xFFFF,
    }
}

/// Whether a field fits the wire widths: one length byte for the key, and
/// the value's own limit.
pub open spec fn field_fits(f: FieldV) -> bool {
    key_bytes(f.key).len() <= 0xFF && value_fits(f.value)
}

/// Whether a whole field map fits the wire widths.
pub open spec fn fields_fit(s: Seq<FieldV>) -> bool {
    s.len() <= 0xFFFF && forall|i: int| 0 <= i < s.len() ==> field_fits(#[trigger] s[i])
}

/// Which length field overflows for a value that does not fit.
pub open spec fn overflow_label(v: ValueV) -> Seq<char> {
    match v {
        ValueV::Account(_) => "account_id"@,
        ValueV::Text(_) => "text value"@,
        ValueV::Blob(_) => "blob value"@,
        _ => Seq::empty(),
    }
}

/// The first length overflow the encoder reports, walking the fields in
/// order and checking each key before its value.
pub open spec fn encode_overflow(s: Seq<FieldV>) -> Option<Seq<char>>
    decreases s.len(),
{
    if s.len() == 0 {
        None
    } else if key_bytes(s[0].key).len() > 0xFF {
        Some("metadata key"@)
    } else if !value_fits(s[0].value) {
        Some(overflow_label(s[0].value))
    } else {
        encode_overflow(s.drop_first())
    }
}

/// Reads a length-prefixed key string from the front of `bs`, returning its
/// characters and the remaining bytes.
pub open spec fn parse_key(bs: Seq<u8>) -> Result<(Seq<char>, Seq<u8>), CodecErrV> {
    if bs.len() < 1 {
        Err(CodecErrV::UnexpectedEof)
    } else {
        let klen: int = bs[0] as int;
        if 1 + klen > bs.len() {
            Err(CodecErrV::UnexpectedEof)
        } else if !valid_utf8(bs.subrange(1, 1 + klen)) {
            Err(CodecErrV::InvalidUtf8("metadata key"@))
        } else {
            Ok((decode_utf8(bs.subrange(1, 1 + klen)), bs.skip(1 + klen)))
        }
    }
}

/// Reads one tagged value from the front of `bs`.
pub open spec fn parse_value(bs: Seq<u8>, tag: u8) -> Result<(ValueV, Seq<u8>), CodecErrV> {
    if tag == 0x01 {
        if bs.len() < 1 {
            Err(CodecErrV::UnexpectedEof)
        } else {
            let alen: int = bs[0] as int;
            if 1 + alen > bs.len() {
                Err(CodecErrV::UnexpectedEof)
            } else if !valid_utf8(bs.subrange(1, 1 + alen)) {
                Err(CodecErrV::InvalidUtf8("account_id"@))
            } else {
                match account_new_error(decode_utf8(bs.subrange(1, 1 + alen))) {
                    Some(reason) => Err(CodecErrV::Payload(PayloadErrV::InvalidAccountId(reason))),
                    None => Ok(
                        (ValueV::Account(decode_utf8(bs.subrange(1, 1 + alen))), bs.skip(1 + alen)),
                    ),
                }
            }
        }
    } else if tag == 0x02 {
        if bs.len() < 8 {
            Err(CodecErrV::UnexpectedEof)
        } else {
            let t: int = bits_i64(spec_u64_from_le_bytes(bs.subrange(0, 8)));
            match ts_new_error(t) {
                Some(reason) => Err(CodecErrV::Payload(PayloadErrV::InvalidTimestamp(reason))),
                None => Ok((ValueV::Timestamp(t), bs.skip(8))),
            }
        }
    } else if tag == 0x10 {
        if bs.len() < 2 {
            Err(CodecErrV::UnexpectedEof)
        } else {
            let tlen: int = spec_u16_from_le_bytes(bs.subrange(0, 2)) as int;
            if 2 + tlen > bs.len() {
                Err(CodecErrV::UnexpectedEof)
            } else if !valid_utf8(bs.subrange(2, 2 + tlen)) {
                Err(CodecErrV::InvalidUtf8("text value"@))
            } else {
                Ok((ValueV::Text(decode_utf8(bs.subrange(2, 2 + tlen))), bs.skip(2 + tlen)))
            }
        }
    } else if tag == 0x11 {
        if bs.len() < 8 {
            Err(CodecErrV::UnexpectedEof)
        } else {
            Ok((ValueV::Integer(bits_i64(spec_u64_from_le_bytes(bs.subrange(0, 8)))), bs.skip(8)))
        }
    } else if tag == 0x12 {
        if bs.len() < 1 {
            Err(CodecErrV::UnexpectedEof)
        } else if bs[0] == 0 {
            Ok((ValueV::Bool(false), bs.skip(1)))
        } else if bs[0] == 1 {
            Ok((ValueV::Bool(true), bs.skip(1)))
        } else {
            Err(CodecErrV::InvalidHeader("boolean value must be 0 or 1"@))
        }
    } else if tag == 0x13 {
        if bs.len() < 2 {
            Err(CodecErrV::UnexpectedEof)
        } else {
            let blen: int = spec_u16_from_le_bytes(bs.subrange(0, 2)) as int;
            if 2 + blen > bs.len() {
                Err(CodecErrV::UnexpectedEof)
            } else {
                Ok((ValueV::Blob(bs.subrange(2, 2 + blen)), bs.skip(2 + blen)))
            }
        }
    } else {
        Err(CodecErrV::UnsupportedFieldType(tag))
    }
}

/// Reads one field record (key, tag, value) from the front of `bs`.
pub open spec fn parse_field(bs: Seq<u8>) -> Result<(FieldV, Seq<u8>), CodecErrV> {
    match parse_key(bs) {
        Err(e) => Err(e),
        Ok((kchars, rest1)) => match key_of_chars(kchars) {
            Err(pe) => Err(CodecErrV::Payload(pe)),
            Ok(k) => if rest1.len() < 1 {
                Err(CodecErrV::UnexpectedEof)
            } else {
                match parse_value(rest1.skip(1), rest1[0]) {
                    Err(e) => Err(e),
                    Ok((v, rest2)) => Ok((FieldV { key: k, value: v }, rest2)),
                }
            },
        },
    }
}

/// Reads `n` field records, holding each against the constraints as the
/// builder would before reading the next.
pub open spec fn parse_fields(bs: Seq<u8>, n: nat, c: PayloadConstraints) -> Result<
    Seq<FieldV>,
    CodecErrV,
>
    decreases n,
{
    if n == 0 {
        Ok(Seq::empty())
    } else {
        match parse_field(bs) {
            Err(e) => Err(e),
            Ok((f, rest)) => match validate_field(f, c) {
                Some(pe) => Err(CodecErrV::Payload(pe)),
                None => match parse_fields(rest, (n - 1) as nat, c) {
                    Err(e) => Err(e),
                    Ok(tail) => Ok(seq![f] + tail),
                },
            },
        }
    }
}

/// Reads a plain envelope body: the declared number of fields, in wire
/// order.  Trailing bytes after the last record are ignored.
pub open spec fn parse_body(body: Seq<u8>, c: PayloadConstraints) -> Result<Seq<FieldV>, CodecErrV> {
    if body.len() < 2 {
        Err(CodecErrV::UnexpectedEof)
    } else {
        parse_fields(body.skip(2), spec_u16_from_le_bytes(body.subrange(0, 2)) as nat, c)
    }
}

/// The `issued_at` field a freshly seeded builder carries.
pub open spec fn seed_field(t: int) -> FieldV {
    FieldV { key: issued_at_key(), value: ValueV::Timestamp(t) }
}

/// The field map a decode rebuilds: parsed fields inserted, in wire order,
/// over a builder seeded with an `issued_at` timestamp.
pub open spec fn decoded_fields(fs: Seq<FieldV>, seed_t: int) -> Seq<FieldV> {
    put_all(seq![seed_field(seed_t)], fs)
}

/// Full outcome of decoding a plain body with the given seed timestamp:
/// the rebuilt map, or the error the parse or the rebuild reports.
pub open spec fn plain_decode(body: Seq<u8>, c: PayloadConstraints, seed_t: int) -> Result<
    Seq<FieldV>,
    CodecErrV,
> {
    match parse_body(body, c) {
        Err(e) => Err(e),
        Ok(fs) => {
            let m = decoded_fields(fs, seed_t);
            if m.len() > c.max_fields {
                Err(
                    CodecErrV::Payload(
                        PayloadErrV::TooManyFields { limit: c.max_fields as int },
                    ),
                )
            } else {
                Ok(m)
            }
        },
    }
}

/// Byte image of the 8-byte frame header.
pub open spec fn header_bytes(v: FormatVersion, flag: u8) -> Seq<u8> {
    seq![0x57u8, 0x4Du8, v.major, v.minor, flag, 0u8, 0u8, 0u8]
}

/// Byte image of an encrypted-hash envelope body.
pub open spec fn enc_body_bytes(tag: Seq<u8>, meta: Seq<u8>, sealed: Seq<u8>) -> Seq<u8> {
    le16(tag.len() as int) + le16(meta.len() as int) + le32(sealed.len() as int) + tag + meta
        + sealed
}

/// Reads the three length-prefixed sections of an encrypted-hash body.
/// Trailing bytes are ignored.
pub open spec fn parse_enc_body(p: Seq<u8>) -> Result<(Seq<u8>, Seq<u8>, Seq<u8>), CodecErrV> {
    if p.len() < 8 {
        Err(CodecErrV::UnexpectedEof)
    } else {
        let tl: int = spec_u16_from_le_bytes(p.subrange(0, 2)) as int;
        let ml: int = spec_u16_from_le_bytes(p.subrange(2, 4)) as int;
        let sl: int = spec_u32_from_le_bytes(p.subrange(4, 8)) as int;
        if p.len() < 8 + tl + ml + sl {
            Err(CodecErrV::UnexpectedEof)
        } else {
            Ok(
                (
                    p.subrange(8, 8 + tl),
                    p.subrange(8 + tl, 8 + tl + ml),
                    p.subrange(8 + tl + ml, 8 + tl + ml + sl),
                ),
            )
        }
    }
}

/// What the header checks of `decode` report, in checking order, or `None`
/// when the header is acceptable under the codec's configuration.
pub open spec fn header_error(bytes: Seq<u8>, expected: FormatVersion, expects_hash: bool) -> Option<
    CodecErrV,
> {
    if bytes.len() < 8 {
        Some(CodecErrV::UnexpectedEof)
    } else if bytes[0] != 0x57 || bytes[1] != 0x4D {
        Some(CodecErrV::InvalidHeader("magic mismatch"@))
    } else if bytes[2] != expected.major {
        Some(
            CodecErrV::UnsupportedVersion {
                expected_major: expected.major,
                found: FormatVersion { major: bytes[2], minor: bytes[3] },
            },
        )
    } else if bytes[4] != 0 && bytes[4] != 1 {
        Some(CodecErrV::InvalidHeader("unknown envelope flag"@))
    } else if bytes[4] == 0 && expects_hash {
        Some(
            CodecErrV::InvalidHeader(
                "plaintext payload encountered but codec expects encrypted hash"@,
            ),
        )
    } else if bytes[4] == 1 && !expects_hash {
        Some(
            CodecErrV::InvalidHeader("received encrypted payload but codec is in plaintext mode"@),
        )
    } else {
        None
    }
}

/// A key whose serialized string reads back as the same key.  Custom keys
/// that spell a well-known name read back as the well-known key instead.
pub open spec fn canonical_key(k: KeyV) -> bool {
    key_of_chars(key_chars(k)) == Ok::<KeyV, PayloadErrV>(k)
}

/// Value-side conditions under which the parser accepts a value it reads
/// back: a structurally valid account identifier, an in-range timestamp.
pub open spec fn value_parseable(v: ValueV) -> bool {
    match v {
        ValueV::Account(s) => valid_account_chars(s),
        ValueV::Timestamp(t) => ts_in_range(t),
        _ => true,
    }
}

/// A field the parser reads back unchanged.
pub open spec fn field_parseable(f: FieldV) -> bool {
    canonical_key(f.key) && value_parseable(f.value)
}

/// Appending one record to a run of records appends its bytes.
pub proof fn lemma_records_snoc(s: Seq<FieldV>, f: FieldV)
    ensures
        records_bytes(s.push(f)) == records_bytes(s) + record_bytes(f),
    decreases s.len(),
{
    if s.len() == 0 {
        assert(s.push(f)[0] == f);
        assert(s.push(f).drop_first() =~= Seq::<FieldV>::empty());
        assert(records_bytes(s.push(f)) == record_bytes(f) + records_bytes(
            Seq::<FieldV>::empty(),
        ));
        assert(record_bytes(f) + Seq::<u8>::empty() =~= record_bytes(f));
        assert(records_bytes(s) == Seq::<u8>::empty());
        assert(Seq::<u8>::empty() + record_bytes(f) =~= record_bytes(f));
    } else {
        assert(s.push(f)[0] == s[0]);
        assert(s.push(f).drop_first() =~= s.drop_first().push(f));
        lemma_records_snoc(s.drop_first(), f);
        assert(records_bytes(s.push(f)) == record_bytes(s[0]) + (records_bytes(s.drop_first())
            + record_bytes(f)));
        assert(record_bytes(s[0]) + (records_bytes(s.drop_first()) + record_bytes(f)) =~= (
        record_bytes(s[0]) + records_bytes(s.drop_first())) + record_bytes(f));
    }
}

/// When every field fits the wire widths, the encoder reports no overflow.
pub proof fn lemma_encode_overflow_none(s: Seq<FieldV>)
    requires
        forall|i: int| 0 <= i < s.len() ==> field_fits(#[trigger] s[i]),
    ensures
        encode_overflow(s) is None,
    decreases s.len(),
{
    if s.len() > 0 {
        assert(field_fits(s[0]));
        lemma_encode_overflow_none(s.drop_first());
    }
}

/// The overflow the encoder reports is the one of the first field that
/// does not fit, key before value.
pub proof fn lemma_encode_overflow_at(s: Seq<FieldV>, i: int)
    requires
        0 <= i < s.len(),
        forall|j: int| 0 <= j < i ==> field_fits(#[trigger] s[j]),
        !field_fits(s[i]),
    ensures
        encode_overflow(s) == Some(
            if key_bytes(s[i].key).len() > 0xFF {
                "metadata key"@
            } else {
                overflow_label(s[i].value)
            },
        ),
    decreases i,
{
    if i == 0 {
    } else {
        assert(field_fits(s[0]));
        lemma_encode_overflow_at(s.drop_first(), i - 1);
    }
}

/// A value the parser reads back unchanged from its own byte image.
proof fn lemma_parse_value_roundtrip(v: ValueV, rest: Seq<u8>)
    requires
        value_fits(v),
        value_parseable(v),
    ensures
        parse_value(value_bytes(v) + rest, tag_of(v)) == Ok::<(ValueV, Seq<u8>), CodecErrV>(
            (v, rest),
        ),
{
    let bs = value_bytes(v) + rest;
    match v {
        ValueV::Account(s) => {
            let ab = encode_utf8(s);
            let alen: int = ab.len() as int;
            assert(bs[0] == alen as u8);
            assert(bs.subrange(1, 1 + alen) =~= ab);
            vstd::utf8::encode_utf8_valid_utf8(s);
            vstd::utf8::encode_utf8_decode_utf8(s);
            assert(account_new_error(s) is None) by {
                lemma_valid_account_not_all_white(s);
            }
            assert(bs.skip(1 + alen) =~= rest);
        },
        ValueV::Timestamp(t) => {
            vstd::bytes::lemma_auto_spec_u64_to_from_le_bytes();
            assert(bs.subrange(0, 8) =~= spec_u64_to_le_bytes(i64_bits(t)));
            lemma_i64_bits_roundtrip(t);
            assert(ts_new_error(t) is None);
            assert(bs.skip(8) =~= rest);
        },
        ValueV::Text(s) => {
            let tb = encode_utf8(s);
            let tlen: int = tb.len() as int;
            vstd::bytes::lemma_auto_spec_u16_to_from_le_bytes();
            assert(bs.subrange(0, 2) =~= le16(tlen));
            assert(spec_u16_from_le_bytes(le16(tlen)) == tlen as u16);
            assert(bs.subrange(2, 2 + tlen) =~= tb);
            vstd::utf8::encode_utf8_valid_utf8(s);
            vstd::utf8::encode_utf8_decode_utf8(s);
            assert(bs.skip(2 + tlen) =~= rest);
        },
        ValueV::Integer(x) => {
            vstd::bytes::lemma_auto_spec_u64_to_from_le_bytes();
            assert(bs.subrange(0, 8) =~= spec_u64_to_le_bytes(i64_bits(x)));
            lemma_i64_bits_roundtrip(x);
            assert(bs.skip(8) =~= rest);
        },
        ValueV::Bool(b) => {
            assert(bs[0] == if b {
                1u8
            } else {
                0u8
            });
            assert(bs.skip(1) =~= rest);
        },
        ValueV::Blob(body) => {
            let blen: int = body.len() as int;
            vstd::bytes::lemma_auto_spec_u16_to_from_le_bytes();
            assert(bs.subrange(0, 2) =~= le16(blen));
            assert(bs.subrange(2, 2 + blen) =~= body);
            assert(bs.skip(2 + blen) =~= rest);
        },
    }
}

/// A field record the parser reads back unchanged from its own byte image.
pub proof fn lemma_parse_field_roundtrip(f: FieldV, rest: Seq<u8>)
    requires
        field_fits(f),
        field_parseable(f),
    ensures
        parse_field(record_bytes(f) + rest) == Ok::<(FieldV, Seq<u8>), CodecErrV>((f, rest)),
{
    let kb = key_bytes(f.key);
    let klen: int = kb.len() as int;
    let tag = tag_of(f.value);
    let vb = value_bytes(f.value);
    let bs = record_bytes(f) + rest;
    assert(bs[0] == klen as u8);
    assert(bs.subrange(1, 1 + klen) =~= kb);
    vstd::utf8::encode_utf8_valid_utf8(key_chars(f.key));
    vstd::utf8::encode_utf8_decode_utf8(key_chars(f.key));
    let rest1 = bs.skip(1 + klen);
    assert(rest1 =~= seq![tag] + vb + rest);
    assert(parse_key(bs) == Ok::<(Seq<char>, Seq<u8>), CodecErrV>((key_chars(f.key), rest1)));
    assert(rest1[0] == tag);
    assert(rest1.skip(1) =~= vb + rest);
    lemma_parse_value_roundtrip(f.value, rest);
}

/// A run of records the parser reads back unchanged, when each field also
/// passes the constraint checks.
#[verifier::rlimit(60)]
pub proof fn lemma_parse_fields_roundtrip(s: Seq<FieldV>, rest: Seq<u8>, c: PayloadConstraints)
    requires
        forall|i: int| 0 <= i < s.len() ==> field_fits(#[trigger] s[i]),
        forall|i: int| 0 <= i < s.len() ==> field_parseable(#[trigger] s[i]),
        forall|i: int| 0 <= i < s.len() ==> validate_field(#[trigger] s[i], c) is None,
    ensures
        parse_fields(records_bytes(s) + rest, s.len() as nat, c) == Ok::<Seq<FieldV>, CodecErrV>(
            s,
        ),
    decreases s.len(),
{
    if s.len() == 0 {
        assert(parse_fields(records_bytes(s) + rest, 0, c) == Ok::<Seq<FieldV>, CodecErrV>(
            Seq::empty(),
        ));
        assert(s =~= Seq::<FieldV>::empty());
    } else {
        let h = s[0];
        let tl = s.drop_first();
        vstd::seq_lib::lemma_concat_associative(record_bytes(h), records_bytes(tl), rest);
        assert(records_bytes(s) + rest == record_bytes(h) + (records_bytes(tl) + rest));
        lemma_parse_field_roundtrip(h, records_bytes(tl) + rest);
        assert(validate_field(h, c) is None);
        assert(forall|i: int| 0 <= i < tl.len() ==> field_fits(#[trigger] tl[i]));
        assert(forall|i: int| 0 <= i < tl.len() ==> field_parseable(#[trigger] tl[i]));
        assert(forall|i: int| 0 <= i < tl.len() ==> validate_field(#[trigger] tl[i], c) is None);
        lemma_parse_fields_roundtrip(tl, rest, c);
        assert(seq![h] + tl =~= s);
    }
}

/// A plain body the parser reads back unchanged.
pub proof fn lemma_parse_body_roundtrip(s: Seq<FieldV>, c: PayloadConstraints)
    requires
        fields_fit(s),
        forall|i: int| 0 <= i < s.len() ==> field_parseable(#[trigger] s[i]),
        forall|i: int| 0 <= i < s.len() ==> validate_field(#[trigger] s[i], c) is None,
    ensures
        parse_body(body_bytes(s), c) == Ok::<Seq<FieldV>, CodecErrV>(s),
{
    let body = body_bytes(s);
    vstd::bytes::lemma_auto_spec_u16_to_from_le_bytes();
    assert(body.subrange(0, 2) =~= le16(s.len() as int));
    assert(spec_u16_from_le_bytes(body.subrange(0, 2)) == s.len() as u16);
    assert(body.skip(2) =~= records_bytes(s) + Seq::<u8>::empty());
    lemma_parse_fields_roundtrip(s, Seq::empty(), c);
}

/// Decoding the encoded body of a well-formed sorted field map that holds
/// an `issued_at` entry rebuilds exactly that map, whatever timestamp the
/// decoder's builder was seeded with.
pub proof fn lemma_plain_decode_roundtrip(s: Seq<FieldV>, c: PayloadConstraints, seed_t: int)
    requires
        sorted_fields(s),
        has_key(s, issued_at_key()),
        fields_fit(s),
        forall|i: int| 0 <= i < s.len() ==> field_parseable(#[trigger] s[i]),
        forall|i: int| 0 <= i < s.len() ==> validate_field(#[trigger] s[i], c) is None,
        s.len() <= c.max_fields,
    ensures
        plain_decode(body_bytes(s), c, seed_t) == Ok::<Seq<FieldV>, CodecErrV>(s),
{
    lemma_parse_body_roundtrip(s, c);
    crate::format::model::lemma_put_all_seeded(seed_field(seed_t), s);
}

/// The three sections of an encrypted-hash body read back unchanged from
/// their own byte image.
pub proof fn lemma_parse_enc_body_roundtrip(tag: Seq<u8>, meta: Seq<u8>, sealed: Seq<u8>)
    requires
        tag.len() <= 0xFFFF,
        meta.len() <= 0xFFFF,
        sealed.len() <= 0xFFFF_FFFF,
    ensures
        parse_enc_body(enc_body_bytes(tag, meta, sealed)) == Ok::<
            (Seq<u8>, Seq<u8>, Seq<u8>),
            CodecErrV,
        >((tag, meta, sealed)),
{
    let p = enc_body_bytes(tag, meta, sealed);
    let tl: int = tag.len() as int;
    let ml: int = meta.len() as int;
    let sl: int = sealed.len() as int;
    vstd::bytes::lemma_auto_spec_u16_to_from_le_bytes();
    vstd::bytes::lemma_auto_spec_u32_to_from_le_bytes();
    assert(p.subrange(0, 2) =~= le16(tl));
    assert(p.subrange(2, 4) =~= le16(ml));
    assert(p.subrange(4, 8) =~= le32(sl));
    assert(spec_u16_from_le_bytes(p.subrange(0, 2)) == tl as u16);
    assert(spec_u16_from_le_bytes(p.subrange(2, 4)) == ml as u16);
    assert(spec_u32_from_le_bytes(p.subrange(4, 8)) == sl as u32);
    assert(p.subrange(8, 8 + tl) =~= tag);
    assert(p.subrange(8 + tl, 8 + tl + ml) =~= meta);
    assert(p.subrange(8 + tl + ml, 8 + tl + ml + sl) =~= sealed);
}

/// A truncated value image reads as an end-of-buffer error: every length
/// the parser takes from a strict prefix of `value_bytes(v)` declares more
/// bytes than the prefix holds.
proof fn lemma_parse_value_prefix_eof(v: ValueV, cut: int)
    requires
        value_fits(v),
        0 <= cut < value_bytes(v).len(),
    ensures
        parse_value(value_bytes(v).take(cut), tag_of(v)) == Err::<(ValueV, Seq<u8>), CodecErrV>(
            CodecErrV::UnexpectedEof,
        ),
{
    let vb = value_bytes(v);
    let p = vb.take(cut);
    match v {
        ValueV::Account(a) => {
            let ab = encode_utf8(a);
            if cut >= 1 {
                assert(p[0] == vb[0]);
                assert(vb[0] == ab.len() as u8);
            }
        },
        ValueV::Timestamp(t) => {
            vstd::bytes::lemma_auto_spec_u64_to_from_le_bytes();
            assert(vb.len() == 8);
        },
        ValueV::Text(txt) => {
            let tb = encode_utf8(txt);
            let tlen: int = tb.len() as int;
            if cut >= 2 {
                vstd::bytes::lemma_auto_spec_u16_to_from_le_bytes();
                assert(p.subrange(0, 2) =~= le16(tlen));
                assert(spec_u16_from_le_bytes(p.subrange(0, 2)) == tlen as u16);
            }
        },
        ValueV::Integer(x) => {
            vstd::bytes::lemma_auto_spec_u64_to_from_le_bytes();
            assert(vb.len() == 8);
        },
        ValueV::Bool(b) => {
            assert(vb.len() == 1);
        },
        ValueV::Blob(bs) => {
            let blen: int = bs.len() as int;
            if cut >= 2 {
                vstd::bytes::lemma_auto_spec_u16_to_from_le_bytes();
                assert(p.subrange(0, 2) =~= le16(blen));
                assert(spec_u16_from_le_bytes(p.subrange(0, 2)) == blen as u16);
            }
        },
    }
}

/// A truncated record image reads as an end-of-buffer error.
proof fn lemma_parse_field_prefix_eof(f: FieldV, cut: int)
    requires
        field_fits(f),
        field_parseable(f),
        0 <= cut < record_bytes(f).len(),
    ensures
        parse_field(record_bytes(f).take(cut)) == Err::<(FieldV, Seq<u8>), CodecErrV>(
            CodecErrV::UnexpectedEof,
        ),
{
    let kb = key_bytes(f.key);
    let klen: int = kb.len() as int;
    let tag = tag_of(f.value);
    let vb = value_bytes(f.value);
    let rb = record_bytes(f);
    let p = rb.take(cut);
    if cut == 0 {
        assert(parse_key(p) == Err::<(Seq<char>, Seq<u8>), CodecErrV>(CodecErrV::UnexpectedEof));
    } else {
        assert(p[0] == rb[0]);
        assert(rb[0] == klen as u8);
        if cut < 1 + klen {
            assert(parse_key(p) == Err::<(Seq<char>, Seq<u8>), CodecErrV>(
                CodecErrV::UnexpectedEof,
            ));
        } else {
            assert(p.subrange(1, 1 + klen) =~= kb);
            vstd::utf8::encode_utf8_valid_utf8(key_chars(f.key));
            vstd::utf8::encode_utf8_decode_utf8(key_chars(f.key));
            let rest1 = p.skip(1 + klen);
            assert(parse_key(p) == Ok::<(Seq<char>, Seq<u8>), CodecErrV>(
                (key_chars(f.key), rest1),
            ));
            if cut == 1 + klen {
                assert(rest1.len() == 0);
            } else {
                assert(rest1[0] == p[1 + klen]);
                assert(p[1 + klen] == rb[1 + klen]);
                assert(rb[1 + klen] == tag);
                assert(rest1.skip(1) =~= vb.take(cut - 2 - klen));
                lemma_parse_value_prefix_eof(f.value, cut - 2 - klen);
            }
        }
    }
}

/// A truncated run of records reads as an end-of-buffer error: the records
/// before the cut parse exactly as in the full image, and the record the
/// cut lands in (or the missing records after it) report the end of the
/// buffer.
proof fn lemma_parse_records_prefix_eof(s: Seq<FieldV>, cut: int, c: PayloadConstraints)
    requires
        forall|i: int| 0 <= i < s.len() ==> field_fits(#[trigger] s[i]),
        forall|i: int| 0 <= i < s.len() ==> field_parseable(#[trigger] s[i]),
        forall|i: int| 0 <= i < s.len() ==> validate_field(#[trigger] s[i], c) is None,
        0 <= cut < records_bytes(s).len(),
    ensures
        parse_fields(records_bytes(s).take(cut), s.len() as nat, c) == Err::<
            Seq<FieldV>,
            CodecErrV,
        >(CodecErrV::UnexpectedEof),
    decreases s.len(),
{
    let h = s[0];
    let tl = s.drop_first();
    let r0 = record_bytes(h);
    let q = records_bytes(s).take(cut);
    if cut < r0.len() {
        assert(q =~= r0.take(cut));
        lemma_parse_field_prefix_eof(h, cut);
    } else {
        let tail_prefix = records_bytes(tl).take(cut - r0.len());
        assert(q =~= r0 + tail_prefix);
        lemma_parse_field_roundtrip(h, tail_prefix);
        assert(validate_field(h, c) is None);
        assert(forall|i: int| 0 <= i < tl.len() ==> field_fits(#[trigger] tl[i]));
        assert(forall|i: int| 0 <= i < tl.len() ==> field_parseable(#[trigger] tl[i]));
        assert(forall|i: int| 0 <= i < tl.len() ==> validate_field(#[trigger] tl[i], c) is None);
        lemma_parse_records_prefix_eof(tl, cut - r0.len(), c);
    }
}

/// A truncated plain body decodes to an end-of-buffer error, whatever seed
/// the decoder's builder carries: the field count or some declared length
/// runs past the end of the buffer.
pub proof fn lemma_plain_decode_prefix_eof(
    s: Seq<FieldV>,
    cut: int,
    c: PayloadConstraints,
    seed_t: int,
)
    requires
        fields_fit(s),
        forall|i: int| 0 <= i < s.len() ==> field_parseable(#[trigger] s[i]),
        forall|i: int| 0 <= i < s.len() ==> validate_field(#[trigger] s[i], c) is None,
        0 <= cut < body_bytes(s).len(),
    ensures
        plain_decode(body_bytes(s).take(cut), c, seed_t) == Err::<Seq<FieldV>, CodecErrV>(
            CodecErrV::UnexpectedEof,
        ),
{
    let body = body_bytes(s);
    let p = body.take(cut);
    vstd::bytes::lemma_auto_spec_u16_to_from_le_bytes();
    if cut < 2 {
        assert(p.len() < 2);
    } else {
        assert(p.subrange(0, 2) =~= le16(s.len() as int));
        assert(spec_u16_from_le_bytes(p.subrange(0, 2)) == s.len() as u16);
        assert(p.skip(2) =~= records_bytes(s).take(cut - 2));
        assert(cut - 2 < records_bytes(s).len());
        lemma_parse_records_prefix_eof(s, cut - 2, c);
    }
}

} // verus!
