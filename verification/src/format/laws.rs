//! Format-level theorems.
//!
//! These public proof functions state the format's global guarantees over
//! the specifications that the codec's contracts use, so a reader can see
//! them in one place rather than assembling them from individual `ensures`
//! clauses.

use vstd::prelude::*;

use crate::format::codec::FormatVersion;
use crate::format::model::all_fields_ok;
use crate::format::model::key_of_chars;
use crate::format::model::wk_chars;
use crate::format::model::KeyV;
use crate::format::model::PayloadErrV;
use crate::format::model::field_ok;
use crate::format::model::validate_field;
use crate::format::model::FieldV;
use crate::format::payload::PayloadConstraints;
use crate::format::payload::PayloadFrame;
use crate::format::payload::WellKnownField;
use crate::format::wire::body_bytes;
use crate::format::wire::canonical_key;
use crate::format::wire::field_parseable;
use crate::format::wire::fields_fit;
use crate::format::wire::header_bytes;
use crate::format::wire::header_error;
use crate::format::wire::enc_body_bytes;
use crate::format::wire::lemma_parse_enc_body_roundtrip;
use crate::format::wire::lemma_plain_decode_prefix_eof;
use crate::format::wire::lemma_plain_decode_roundtrip;
use crate::format::wire::parse_enc_body;
use crate::format::wire::plain_decode;
use crate::format::wire::CodecErrV;

verus! {

/// Each of the five well-known names reads back as its well-known key.
pub proof fn lemma_wk_canonical(f: WellKnownField)
    ensures
        key_of_chars(wk_chars(f)) == Ok::<KeyV, PayloadErrV>(
            KeyV::WellKnown(f),
        ),
{
    let a = wk_chars(WellKnownField::AccountId);
    let se = wk_chars(WellKnownField::SessionId);
    let co = wk_chars(WellKnownField::ContentId);
    let is_ = wk_chars(WellKnownField::IssuedAt);
    let ex = wk_chars(WellKnownField::ExpiresAt);
    assert(a[0] == 'a' && se[0] == 's' && co[0] == 'c' && is_[0] == 'i' && ex[0] == 'e');
    assert(a.len() == 10 && se.len() == 10 && co.len() == 10 && is_.len() == 9 && ex.len() == 10);
}

/// A field that passes the builder's validation also passes the parser's
/// checks when read back, provided its key is canonical.
pub proof fn lemma_field_ok_parseable(f: FieldV, c: PayloadConstraints)
    requires
        field_ok(f, c),
        canonical_key(f.key),
    ensures
        field_parseable(f),
        validate_field(f, c) is None,
{
}

/// Round trip of the plain body: a well-formed frame whose fields fit the
/// wire widths and use canonical keys is rebuilt exactly from its own
/// encoding, whatever in-range timestamp the decoder's builder was seeded
/// with.  (A custom key spelling a well-known name, such as a custom
/// `account_id`, is not canonical: it would read back as the well-known
/// key.)
pub proof fn lemma_plain_round_trip(frame: PayloadFrame, seed_t: int)
    requires
        frame.wf(),
        fields_fit(frame@),
        all_fields_ok(frame@, frame.spec_constraints()),
        forall|i: int| 0 <= i < frame@.len() ==> canonical_key((#[trigger] frame@[i]).key),
    ensures
        plain_decode(body_bytes(frame@), frame.spec_constraints(), seed_t) == Ok::<
            Seq<FieldV>,
            CodecErrV,
        >(frame@),
{
    let s = frame@;
    let c = frame.spec_constraints();
    assert forall|i: int| 0 <= i < s.len() implies field_parseable(#[trigger] s[i])
        && validate_field(s[i], c) is None by {
        lemma_field_ok_parseable(s[i], c);
    }
    lemma_plain_decode_roundtrip(s, c, seed_t);
}

/// Round trip through the codec, for the unencrypted mode: the bytes that
/// `encode` produces for such a frame pass every header check of a codec
/// bound to the same version and no encryption, and their body decodes to
/// exactly the frame's field map.  Together with the contracts of `encode`
/// and `decode` this is the statement `decode(encode(frame)) == frame`.
pub proof fn lemma_codec_round_trip(frame: PayloadFrame, v: FormatVersion, seed_t: int)
    requires
        frame.wf(),
        fields_fit(frame@),
        all_fields_ok(frame@, frame.spec_constraints()),
        forall|i: int| 0 <= i < frame@.len() ==> canonical_key((#[trigger] frame@[i]).key),
    ensures
        header_error(header_bytes(v, 0) + body_bytes(frame@), v, false) is None,
        (header_bytes(v, 0) + body_bytes(frame@)).skip(8) == body_bytes(frame@),
        plain_decode(body_bytes(frame@), frame.spec_constraints(), seed_t) == Ok::<
            Seq<FieldV>,
            CodecErrV,
        >(frame@),
{
    let bytes = header_bytes(v, 0) + body_bytes(frame@);
    assert(bytes.len() >= 8);
    assert(bytes[0] == 0x57 && bytes[1] == 0x4D && bytes[2] == v.major && bytes[4] == 0);
    assert(bytes.skip(8) =~= body_bytes(frame@));
    lemma_plain_round_trip(frame, seed_t);
}

/// Round trip of the encrypted envelope framing.  The three sections a
/// strategy's seal returned are read back exactly from the encrypted body,
/// and when the strategy's open hands back the frame's plain body, that
/// body is rebuilt into exactly the frame's field map.  The envelope bytes
/// are a function of the artifacts alone, so byte-identical seal results
/// give byte-identical frames; what a strategy returns for given inputs is
/// its own affair and outside these theorems.
pub proof fn lemma_encrypted_round_trip(
    frame: PayloadFrame,
    v: FormatVersion,
    tag: Seq<u8>,
    meta: Seq<u8>,
    sealed: Seq<u8>,
    seed_t: int,
)
    requires
        frame.wf(),
        fields_fit(frame@),
        all_fields_ok(frame@, frame.spec_constraints()),
        forall|i: int| 0 <= i < frame@.len() ==> canonical_key((#[trigger] frame@[i]).key),
        tag.len() <= 0xFFFF,
        meta.len() <= 0xFFFF,
        sealed.len() <= 0xFFFF_FFFF,
    ensures
        header_error(header_bytes(v, 1) + enc_body_bytes(tag, meta, sealed), v, true) is None,
        (header_bytes(v, 1) + enc_body_bytes(tag, meta, sealed)).skip(8) == enc_body_bytes(
            tag,
            meta,
            sealed,
        ),
        parse_enc_body(enc_body_bytes(tag, meta, sealed)) == Ok::<
            (Seq<u8>, Seq<u8>, Seq<u8>),
            CodecErrV,
        >((tag, meta, sealed)),
        plain_decode(body_bytes(frame@), frame.spec_constraints(), seed_t) == Ok::<
            Seq<FieldV>,
            CodecErrV,
        >(frame@),
{
    let bytes = header_bytes(v, 1) + enc_body_bytes(tag, meta, sealed);
    vstd::bytes::lemma_auto_spec_u16_to_from_le_bytes();
    assert(bytes.len() >= 8);
    assert(bytes[0] == 0x57 && bytes[1] == 0x4D && bytes[2] == v.major && bytes[4] == 1);
    assert(bytes.skip(8) =~= enc_body_bytes(tag, meta, sealed));
    lemma_parse_enc_body_roundtrip(tag, meta, sealed);
    lemma_plain_round_trip(frame, seed_t);
}

/// Truncation: cutting the encoding of a well-formed frame anywhere short
/// decodes to an end-of-buffer error — under the 8-byte header as the
/// header check, past it because the field count or some declared length
/// runs past the end of the buffer.  No truncation is silently accepted or
/// reported as anything but `UnexpectedEof`; that decoding cannot read out
/// of bounds or panic is what verification itself guarantees of every
/// function here.
pub proof fn lemma_truncated_encoding_is_eof(
    frame: PayloadFrame,
    v: FormatVersion,
    seed_t: int,
    cut: int,
)
    requires
        frame.wf(),
        fields_fit(frame@),
        all_fields_ok(frame@, frame.spec_constraints()),
        forall|i: int| 0 <= i < frame@.len() ==> canonical_key((#[trigger] frame@[i]).key),
        0 <= cut < (header_bytes(v, 0) + body_bytes(frame@)).len(),
    ensures
        cut < 8 ==> header_error((header_bytes(v, 0) + body_bytes(frame@)).take(cut), v, false)
            == Some(CodecErrV::UnexpectedEof),
        cut >= 8 ==> header_error((header_bytes(v, 0) + body_bytes(frame@)).take(cut), v, false)
            is None && (header_bytes(v, 0) + body_bytes(frame@)).take(cut)[4] == 0
            && plain_decode(
            (header_bytes(v, 0) + body_bytes(frame@)).take(cut).skip(8),
            frame.spec_constraints(),
            seed_t,
        ) == Err::<Seq<FieldV>, CodecErrV>(CodecErrV::UnexpectedEof),
{
    let full = header_bytes(v, 0) + body_bytes(frame@);
    let p = full.take(cut);
    if cut < 8 {
        assert(p.len() < 8);
    } else {
        assert(p[0] == 0x57 && p[1] == 0x4D && p[2] == v.major && p[4] == 0);
        assert(p.skip(8) =~= body_bytes(frame@).take(cut - 8));
        assert(cut - 8 < body_bytes(frame@).len());
        let c = frame.spec_constraints();
        assert forall|i: int| 0 <= i < frame@.len() implies field_parseable(#[trigger] frame@[i])
            && validate_field(frame@[i], c) is None by {
            lemma_field_ok_parseable(frame@[i], c);
        }
        lemma_plain_decode_prefix_eof(frame@, cut - 8, c, seed_t);
    }
}

} // verus!
