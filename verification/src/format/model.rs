//! Mathematical model of the metadata a payload carries.
//!
//! The executable types in [`crate::format::payload`] are viewed as the ghost
//! datatypes defined here: a key is either one of the five well-known field
//! names or a custom character sequence, and a value is one case per wire
//! type tag.  A frame is modelled as a sequence of key/value pairs kept
//! strictly sorted by the key order below, which makes the map structure
//! (unique keys, deterministic iteration order) a plain property of the
//! sequence.

use vstd::prelude::*;
use vstd::utf8::encode_utf8;

use crate::format::payload::PayloadConstraints;
use crate::format::payload::WellKnownField;

verus! {

/// Ghost view of a metadata key.
pub enum KeyV {
    WellKnown(WellKnownField),
    Custom(Seq<char>),
}

/// Ghost view of a metadata value, one case per wire type tag.
pub enum ValueV {
    Account(Seq<char>),
    Timestamp(int),
    Text(Seq<char>),
    Integer(int),
    Bool(bool),
    Blob(Seq<u8>),
}

/// Ghost view of a single metadata field.
pub struct FieldV {
    pub key: KeyV,
    pub value: ValueV,
}

/// Canonical character sequence of a well-known field name.
pub open spec fn wk_chars(f: WellKnownField) -> Seq<char> {
    match f {
        WellKnownField::AccountId => seq!['a', 'c', 'c', 'o', 'u', 'n', 't', '_', 'i', 'd'],
        WellKnownField::SessionId => seq!['s', 'e', 's', 's', 'i', 'o', 'n', '_', 'i', 'd'],
        WellKnownField::ContentId => seq!['c', 'o', 'n', 't', 'e', 'n', 't', '_', 'i', 'd'],
        WellKnownField::IssuedAt => seq!['i', 's', 's', 'u', 'e', 'd', '_', 'a', 't'],
        WellKnownField::ExpiresAt => seq!['e', 'x', 'p', 'i', 'r', 'e', 's', '_', 'a', 't'],
    }
}

/// Character sequence a key serializes as.
pub open spec fn key_chars(k: KeyV) -> Seq<char> {
    match k {
        KeyV::WellKnown(f) => wk_chars(f),
        KeyV::Custom(s) => s,
    }
}

/// UTF-8 bytes a key serializes as.
pub open spec fn key_bytes(k: KeyV) -> Seq<u8> {
    encode_utf8(key_chars(k))
}

/// Rank of a well-known field in the key order (declaration order).
pub open spec fn wk_rank(f: WellKnownField) -> int {
    match f {
        WellKnownField::AccountId => 0,
        WellKnownField::SessionId => 1,
        WellKnownField::ContentId => 2,
        WellKnownField::IssuedAt => 3,
        WellKnownField::ExpiresAt => 4,
    }
}

/// Lexicographic order on byte sequences.
pub open spec fn bytes_lt(a: Seq<u8>, b: Seq<u8>) -> bool
    decreases a.len(),
{
    if a.len() == 0 {
        b.len() > 0
    } else if b.len() == 0 {
        false
    } else if a[0] != b[0] {
        a[0] < b[0]
    } else {
        bytes_lt(a.drop_first(), b.drop_first())
    }
}

/// Total order on keys: well-known fields first, in declaration order, then
/// custom keys in byte-wise lexicographic order of their UTF-8 encoding.
pub open spec fn key_lt(a: KeyV, b: KeyV) -> bool {
    match (a, b) {
        (KeyV::WellKnown(x), KeyV::WellKnown(y)) => wk_rank(x) < wk_rank(y),
        (KeyV::WellKnown(_), KeyV::Custom(_)) => true,
        (KeyV::Custom(_), KeyV::WellKnown(_)) => false,
        (KeyV::Custom(s), KeyV::Custom(t)) => bytes_lt(encode_utf8(s), encode_utf8(t)),
    }
}

/// A field sequence with strictly increasing keys: a map in sequence form.
pub open spec fn sorted_fields(s: Seq<FieldV>) -> bool {
    forall|i: int, j: int| 0 <= i < j < s.len() ==> key_lt(#[trigger] s[i].key, #[trigger] s[j].key)
}

/// Value bound to a key, if the key is present.
pub open spec fn get_value(s: Seq<FieldV>, k: KeyV) -> Option<ValueV>
    decreases s.len(),
{
    if s.len() == 0 {
        None
    } else if s[0].key == k {
        Some(s[0].value)
    } else {
        get_value(s.drop_first(), k)
    }
}

/// Whether a key is present.
pub open spec fn has_key(s: Seq<FieldV>, k: KeyV) -> bool {
    get_value(s, k) is Some
}

/// Insertion into the sorted sequence: replaces the value when the key is
/// present, otherwise inserts the field at its position in the key order.
pub open spec fn put(s: Seq<FieldV>, f: FieldV) -> Seq<FieldV>
    decreases s.len(),
{
    if s.len() == 0 {
        seq![f]
    } else if key_lt(f.key, s[0].key) {
        seq![f] + s
    } else if f.key == s[0].key {
        seq![f] + s.drop_first()
    } else {
        seq![s[0]] + put(s.drop_first(), f)
    }
}

/// Inserting each field of `fs` in turn, starting from `s`.
pub open spec fn put_all(s: Seq<FieldV>, fs: Seq<FieldV>) -> Seq<FieldV>
    decreases fs.len(),
{
    if fs.len() == 0 {
        s
    } else {
        put_all(put(s, fs[0]), fs.drop_first())
    }
}

/// Byte allowed in a custom key: ASCII lowercase letters, digits, `_`, `.`.
pub open spec fn is_key_byte(b: u8) -> bool {
    (97 <= b <= 122) || (48 <= b <= 57) || b == 95 || b == 46
}

/// Valid custom key: non-empty, every byte allowed.  All allowed bytes are
/// ASCII, so this is exactly the character-level rule of the format.
pub open spec fn valid_custom_key_bytes(bs: Seq<u8>) -> bool {
    bs.len() > 0 && forall|i: int| 0 <= i < bs.len() ==> is_key_byte(#[trigger] bs[i])
}

/// Byte allowed in an account identifier: ASCII alphanumerics, `_`, `-`.
pub open spec fn is_account_byte(b: u8) -> bool {
    (65 <= b <= 90) || (97 <= b <= 122) || (48 <= b <= 57) || b == 95 || b == 45
}

/// Largest account identifier, in bytes.
pub const ACCOUNT_ID_MAX_BYTES: usize = 64;

/// Valid account identifier: non-empty, at most 64 bytes, every byte allowed.
pub open spec fn valid_account_bytes(bs: Seq<u8>) -> bool {
    0 < bs.len() <= ACCOUNT_ID_MAX_BYTES && forall|i: int|
        0 <= i < bs.len() ==> is_account_byte(#[trigger] bs[i])
}

/// Valid account identifier, stated over its characters.
pub open spec fn valid_account_chars(s: Seq<char>) -> bool {
    valid_account_bytes(encode_utf8(s))
}

/// A character with the Unicode `White_Space` property, as `char::is_whitespace`
/// defines it.
pub open spec fn is_white_char(c: char) -> bool {
    let u = c as u32;
    (0x9 <= u <= 0xD) || u == 0x20 || u == 0x85 || u == 0xA0 || u == 0x1680 || (0x2000 <= u
        <= 0x200A) || u == 0x2028 || u == 0x2029 || u == 0x202F || u == 0x205F || u == 0x3000
}

/// True when the sequence trims to nothing: every character is whitespace.
pub open spec fn all_white(s: Seq<char>) -> bool {
    forall|i: int| 0 <= i < s.len() ==> is_white_char(#[trigger] s[i])
}

/// Earliest timestamp the format accepts: about 100 years before the Unix epoch.
pub const TIMESTAMP_MIN_SECONDS: i64 = -3_155_760_000;

/// Latest timestamp the format accepts: the end of year 9999.
pub const TIMESTAMP_MAX_SECONDS: i64 = 253_402_300_800;

/// Seconds within the representable timestamp range.
pub open spec fn ts_in_range(t: int) -> bool {
    TIMESTAMP_MIN_SECONDS <= t <= TIMESTAMP_MAX_SECONDS
}

/// Size a value counts for against the constraints, in bytes.
pub open spec fn value_size(v: ValueV) -> int {
    match v {
        ValueV::Account(s) => encode_utf8(s).len() as int,
        ValueV::Timestamp(_) => 16,
        ValueV::Text(s) => encode_utf8(s).len() as int,
        ValueV::Integer(_) => 8,
        ValueV::Bool(_) => 1,
        ValueV::Blob(bs) => bs.len() as int,
    }
}

/// Value-side validity: size limits for text and blobs, a structurally valid
/// identifier for accounts, and an in-range timestamp.
pub open spec fn value_ok(v: ValueV, c: PayloadConstraints) -> bool {
    match v {
        ValueV::Account(s) => valid_account_chars(s),
        ValueV::Timestamp(t) => ts_in_range(t),
        ValueV::Text(_) => value_size(v) <= c.max_text_bytes,
        ValueV::Integer(_) => true,
        ValueV::Bool(_) => true,
        ValueV::Blob(_) => value_size(v) <= c.max_blob_bytes,
    }
}

/// Field validity under the given constraints: what `put_field` enforces.
pub open spec fn field_ok(f: FieldV, c: PayloadConstraints) -> bool {
    &&& 0 < key_bytes(f.key).len() <= c.max_key_bytes
    &&& value_ok(f.value, c)
}

pub open spec fn all_fields_ok(s: Seq<FieldV>, c: PayloadConstraints) -> bool {
    forall|i: int| 0 <= i < s.len() ==> field_ok(#[trigger] s[i], c)
}

/// The limits a frame is built under when the caller does not choose any.
pub open spec fn default_constraints() -> PayloadConstraints {
    PayloadConstraints { max_fields: 32, max_key_bytes: 64, max_text_bytes: 512, max_blob_bytes: 1024 }
}

/// The reason `AccountId::new` rejects a string, in checking order, or
/// `None` when the string is a valid identifier.
pub open spec fn account_new_error(chars: Seq<char>) -> Option<Seq<char>> {
    if all_white(chars) {
        Some(account_empty_reason())
    } else if encode_utf8(chars).len() > ACCOUNT_ID_MAX_BYTES {
        Some(account_length_reason())
    } else if !valid_account_bytes(encode_utf8(chars)) {
        Some(account_charset_reason())
    } else {
        None
    }
}

/// The reason `MetadataTimestamp::from_unix_seconds` rejects a count of
/// seconds, in checking order, or `None` when the count is representable.
pub open spec fn ts_new_error(t: int) -> Option<Seq<char>> {
    if t > TIMESTAMP_MAX_SECONDS {
        Some("timestamp exceeds supported range"@)
    } else if t == i64::MIN {
        Some("seconds precede the representable range"@)
    } else if t < TIMESTAMP_MIN_SECONDS {
        Some("timestamp precedes supported range"@)
    } else {
        None
    }
}

/// The key the builder seeds on construction.
pub open spec fn issued_at_key() -> KeyV {
    KeyV::WellKnown(WellKnownField::IssuedAt)
}

/// Ghost view of a payload validation error.
pub enum PayloadErrV {
    EmptyKey,
    KeyTooLong { key: KeyV, limit: int },
    ValueTooLarge { key: KeyV, limit: int },
    TooManyFields { limit: int },
    InvalidAccountId(Seq<char>),
    InvalidCustomKey(Seq<char>),
    InvalidTimestamp(Seq<char>),
}

/// Reason reported for a custom key with characters outside the allowed set.
pub open spec fn custom_key_reason() -> Seq<char> {
    "keys must be lowercase ASCII alphanumerics, '.', or '_'"@
}

/// Reason reported for an account identifier that trims to nothing.
pub open spec fn account_empty_reason() -> Seq<char> {
    "account identifiers cannot be empty"@
}

/// Reason reported for an account identifier over the length cap.
pub open spec fn account_length_reason() -> Seq<char> {
    "account identifier exceeds maximum length"@
}

/// Reason reported for an account identifier with characters outside the
/// allowed set.
pub open spec fn account_charset_reason() -> Seq<char> {
    "account identifier must be alphanumeric plus '-' or '_'"@
}

/// How a serialized key string is read back: the five well-known names map
/// to their fields, anything else must be a valid custom key.
pub open spec fn key_of_chars(s: Seq<char>) -> Result<KeyV, PayloadErrV> {
    if s == wk_chars(WellKnownField::AccountId) {
        Ok(KeyV::WellKnown(WellKnownField::AccountId))
    } else if s == wk_chars(WellKnownField::SessionId) {
        Ok(KeyV::WellKnown(WellKnownField::SessionId))
    } else if s == wk_chars(WellKnownField::ContentId) {
        Ok(KeyV::WellKnown(WellKnownField::ContentId))
    } else if s == wk_chars(WellKnownField::IssuedAt) {
        Ok(KeyV::WellKnown(WellKnownField::IssuedAt))
    } else if s == wk_chars(WellKnownField::ExpiresAt) {
        Ok(KeyV::WellKnown(WellKnownField::ExpiresAt))
    } else if s.len() == 0 {
        Err(PayloadErrV::EmptyKey)
    } else if !valid_custom_key_bytes(encode_utf8(s)) {
        Err(PayloadErrV::InvalidCustomKey(custom_key_reason()))
    } else {
        Ok(KeyV::Custom(s))
    }
}

/// What the builder checks before inserting a field, in checking order.
/// `None` means the field is accepted.
pub open spec fn validate_field(f: FieldV, c: PayloadConstraints) -> Option<PayloadErrV> {
    if key_bytes(f.key).len() == 0 {
        Some(PayloadErrV::EmptyKey)
    } else if key_bytes(f.key).len() > c.max_key_bytes {
        Some(PayloadErrV::KeyTooLong { key: f.key, limit: c.max_key_bytes as int })
    } else {
        match f.value {
            ValueV::Text(s) => if encode_utf8(s).len() > c.max_text_bytes {
                Some(PayloadErrV::ValueTooLarge { key: f.key, limit: c.max_text_bytes as int })
            } else {
                None
            },
            ValueV::Blob(bs) => if bs.len() > c.max_blob_bytes {
                Some(PayloadErrV::ValueTooLarge { key: f.key, limit: c.max_blob_bytes as int })
            } else {
                None
            },
            ValueV::Account(s) => if !valid_account_chars(s) {
                Some(PayloadErrV::InvalidAccountId(account_charset_reason()))
            } else {
                None
            },
            _ => None,
        }
    }
}

/// Field validity as the builder's invariant tracks it: every accepted field
/// is valid, except that the seeded `issued_at` entry is only known to hold
/// an in-range timestamp (it is injected without the key-length check).
pub open spec fn builder_field_ok(f: FieldV, c: PayloadConstraints) -> bool {
    field_ok(f, c) || (f.key == issued_at_key() && f.value is Timestamp && value_ok(f.value, c))
}

pub open spec fn all_builder_fields_ok(s: Seq<FieldV>, c: PayloadConstraints) -> bool {
    forall|i: int| 0 <= i < s.len() ==> builder_field_ok(#[trigger] s[i], c)
}

/// Well-formed builder or frame contents: sorted unique keys, each field
/// accepted by the validator (or the seeded `issued_at`), and an `issued_at`
/// entry present.
pub open spec fn fields_wf(s: Seq<FieldV>, c: PayloadConstraints) -> bool {
    &&& sorted_fields(s)
    &&& all_builder_fields_ok(s, c)
    &&& has_key(s, issued_at_key())
}

/// State of the field map after inserting `fs` in order, stopping at the
/// first field the validator rejects (earlier insertions are kept).
pub open spec fn extend_state(s: Seq<FieldV>, fs: Seq<FieldV>, c: PayloadConstraints) -> Seq<
    FieldV,
>
    decreases fs.len(),
{
    if fs.len() == 0 {
        s
    } else if validate_field(fs[0], c) is Some {
        s
    } else {
        extend_state(put(s, fs[0]), fs.drop_first(), c)
    }
}

/// Outcome of inserting `fs` in order: the final map, or the first error.
pub open spec fn extend_result(s: Seq<FieldV>, fs: Seq<FieldV>, c: PayloadConstraints) -> Result<
    Seq<FieldV>,
    PayloadErrV,
>
    decreases fs.len(),
{
    if fs.len() == 0 {
        Ok(s)
    } else {
        match validate_field(fs[0], c) {
            Some(e) => Err(e),
            None => extend_result(put(s, fs[0]), fs.drop_first(), c),
        }
    }
}

/// Folding one more field equals inserting it after the fold.
pub proof fn lemma_put_all_snoc(s: Seq<FieldV>, fs: Seq<FieldV>, f: FieldV)
    ensures
        put_all(s, fs.push(f)) == put(put_all(s, fs), f),
    decreases fs.len(),
{
    if fs.len() == 0 {
        assert(fs.push(f)[0] == f);
        assert(fs.push(f).drop_first() =~= Seq::<FieldV>::empty());
        assert(put_all(s, fs.push(f)) == put_all(put(s, f), Seq::<FieldV>::empty()));
    } else {
        assert(fs.push(f)[0] == fs[0]);
        assert(fs.push(f).drop_first() =~= fs.drop_first().push(f));
        lemma_put_all_snoc(put(s, fs[0]), fs.drop_first(), f);
    }
}

pub proof fn lemma_bytes_lt_asymmetric(a: Seq<u8>, b: Seq<u8>)
    requires
        bytes_lt(a, b),
    ensures
        !bytes_lt(b, a),
    decreases a.len(),
{
    if a.len() != 0 && b.len() != 0 && a[0] == b[0] {
        lemma_bytes_lt_asymmetric(a.drop_first(), b.drop_first());
    }
}

pub proof fn lemma_bytes_lt_connected(a: Seq<u8>, b: Seq<u8>)
    requires
        !bytes_lt(a, b),
        !bytes_lt(b, a),
    ensures
        a == b,
    decreases a.len(),
{
    if a.len() == 0 {
        assert(b.len() == 0);
        assert(a =~= b);
    } else {
        assert(b.len() != 0);
        assert(a[0] == b[0]);
        lemma_bytes_lt_connected(a.drop_first(), b.drop_first());
        assert(a =~= seq![a[0]] + a.drop_first());
        assert(b =~= seq![b[0]] + b.drop_first());
    }
}

pub proof fn lemma_bytes_lt_transitive(a: Seq<u8>, b: Seq<u8>, c: Seq<u8>)
    requires
        bytes_lt(a, b),
        bytes_lt(b, c),
    ensures
        bytes_lt(a, c),
    decreases a.len(),
{
    if a.len() != 0 && b.len() != 0 && c.len() != 0 {
        if a[0] == b[0] && b[0] == c[0] {
            lemma_bytes_lt_transitive(a.drop_first(), b.drop_first(), c.drop_first());
        }
    }
}

pub proof fn lemma_key_lt_asymmetric(a: KeyV, b: KeyV)
    requires
        key_lt(a, b),
    ensures
        !key_lt(b, a),
        a != b,
{
    match (a, b) {
        (KeyV::Custom(s), KeyV::Custom(t)) => {
            lemma_bytes_lt_asymmetric(encode_utf8(s), encode_utf8(t));
            if a == b {
                assert(bytes_lt(encode_utf8(s), encode_utf8(s)));
            }
        },
        _ => {},
    }
}

pub proof fn lemma_key_lt_connected(a: KeyV, b: KeyV)
    requires
        !key_lt(a, b),
        !key_lt(b, a),
    ensures
        a == b,
{
    match (a, b) {
        (KeyV::Custom(s), KeyV::Custom(t)) => {
            lemma_bytes_lt_connected(encode_utf8(s), encode_utf8(t));
            vstd::utf8::encode_utf8_decode_utf8(s);
            vstd::utf8::encode_utf8_decode_utf8(t);
        },
        _ => {},
    }
}

/// The key order is total: two distinct keys compare one way or the other.
pub proof fn lemma_key_lt_total(a: KeyV, b: KeyV)
    ensures
        key_lt(a, b) || key_lt(b, a) || a == b,
{
    if !key_lt(a, b) && !key_lt(b, a) {
        lemma_key_lt_connected(a, b);
    }
}

pub proof fn lemma_key_lt_transitive(a: KeyV, b: KeyV, c: KeyV)
    requires
        key_lt(a, b),
        key_lt(b, c),
    ensures
        key_lt(a, c),
{
    match (a, c) {
        (KeyV::Custom(s), KeyV::Custom(u)) => {
            match b {
                KeyV::Custom(t) => {
                    lemma_bytes_lt_transitive(encode_utf8(s), encode_utf8(t), encode_utf8(u));
                },
                KeyV::WellKnown(_) => {},
            }
        },
        _ => {},
    }
}

pub proof fn lemma_key_lt_irreflexive(k: KeyV)
    ensures
        !key_lt(k, k),
{
    if key_lt(k, k) {
        lemma_key_lt_asymmetric(k, k);
    }
}

/// A present key is the key of some entry.
pub proof fn lemma_has_key_index(s: Seq<FieldV>, k: KeyV)
    requires
        has_key(s, k),
    ensures
        exists|i: int| 0 <= i < s.len() && (#[trigger] s[i]).key == k,
    decreases s.len(),
{
    if s.len() > 0 && s[0].key != k {
        lemma_has_key_index(s.drop_first(), k);
        let i = choose|i: int| 0 <= i < s.drop_first().len() && (#[trigger] s.drop_first()[i]).key
            == k;
        assert(s[i + 1].key == k);
    }
}

/// The key of any entry is present.
pub proof fn lemma_index_has_key(s: Seq<FieldV>, i: int)
    requires
        0 <= i < s.len(),
    ensures
        has_key(s, s[i].key),
    decreases s.len(),
{
    if s.len() > 0 && s[0].key != s[i].key {
        lemma_index_has_key(s.drop_first(), i - 1);
    }
}

/// In a sorted sequence, lookup finds the entry that carries the key.
pub proof fn lemma_sorted_get_index(s: Seq<FieldV>, i: int)
    requires
        sorted_fields(s),
        0 <= i < s.len(),
    ensures
        get_value(s, s[i].key) == Some(s[i].value),
    decreases s.len(),
{
    if i > 0 {
        assert(key_lt(s[0].key, s[i].key));
        lemma_key_lt_asymmetric(s[0].key, s[i].key);
        lemma_sorted_get_index(s.drop_first(), i - 1);
    }
}

/// Every entry of `put(s, f)` is `f` or an entry of `s`.
pub proof fn lemma_put_membership(s: Seq<FieldV>, f: FieldV)
    ensures
        forall|j: int|
            0 <= j < put(s, f).len() ==> (#[trigger] put(s, f)[j] == f || s.contains(put(s, f)[j])),
    decreases s.len(),
{
    if s.len() != 0 && !key_lt(f.key, s[0].key) && f.key != s[0].key {
        lemma_put_membership(s.drop_first(), f);
        let r = put(s, f);
        assert forall|j: int| 0 <= j < r.len() implies (#[trigger] r[j] == f || s.contains(
            r[j],
        )) by {
            if j == 0 {
                assert(s.contains(s[0]));
            } else {
                let rr = put(s.drop_first(), f);
                assert(r[j] == rr[j - 1]);
                if rr[j - 1] != f {
                    assert(s.drop_first().contains(rr[j - 1]));
                    let m = choose|m: int|
                        0 <= m < s.drop_first().len() && s.drop_first()[m] == rr[j - 1];
                    assert(s[m + 1] == rr[j - 1]);
                    assert(s.contains(rr[j - 1]));
                }
            }
        }
    }
}

/// Insertion keeps the sequence sorted.
pub proof fn lemma_put_sorted(s: Seq<FieldV>, f: FieldV)
    requires
        sorted_fields(s),
    ensures
        sorted_fields(put(s, f)),
    decreases s.len(),
{
    let r = put(s, f);
    if s.len() == 0 {
    } else if key_lt(f.key, s[0].key) {
        assert forall|i: int, j: int| 0 <= i < j < r.len() implies key_lt(
            (#[trigger] r[i]).key,
            (#[trigger] r[j]).key,
        ) by {
            if i == 0 {
                if j > 1 {
                    lemma_key_lt_transitive(f.key, s[0].key, s[j - 1].key);
                }
            } else {
                assert(r[i] == s[i - 1] && r[j] == s[j - 1]);
            }
        }
    } else if f.key == s[0].key {
        assert forall|i: int, j: int| 0 <= i < j < r.len() implies key_lt(
            (#[trigger] r[i]).key,
            (#[trigger] r[j]).key,
        ) by {
            if i == 0 {
                assert(r[j] == s[j]);
            } else {
                assert(r[i] == s[i] && r[j] == s[j]);
            }
        }
    } else {
        lemma_key_lt_total(f.key, s[0].key);
        assert(key_lt(s[0].key, f.key));
        assert(sorted_fields(s.drop_first()));
        lemma_put_sorted(s.drop_first(), f);
        lemma_put_membership(s.drop_first(), f);
        let rr = put(s.drop_first(), f);
        assert forall|i: int, j: int| 0 <= i < j < r.len() implies key_lt(
            (#[trigger] r[i]).key,
            (#[trigger] r[j]).key,
        ) by {
            if i == 0 {
                assert(r[j] == rr[j - 1]);
                if rr[j - 1] == f {
                } else {
                    assert(s.drop_first().contains(rr[j - 1]));
                    let m = choose|m: int|
                        0 <= m < s.drop_first().len() && s.drop_first()[m] == rr[j - 1];
                    assert(s[m + 1] == rr[j - 1]);
                    assert(key_lt(s[0].key, s[m + 1].key));
                }
            } else {
                assert(r[i] == rr[i - 1] && r[j] == rr[j - 1]);
            }
        }
    }
}

/// What lookup returns after an insertion.
pub proof fn lemma_put_get(s: Seq<FieldV>, f: FieldV, k: KeyV)
    requires
        sorted_fields(s),
    ensures
        get_value(put(s, f), k) == if k == f.key {
            Some(f.value)
        } else {
            get_value(s, k)
        },
    decreases s.len(),
{
    let r = put(s, f);
    if s.len() == 0 {
    } else if key_lt(f.key, s[0].key) {
        lemma_key_lt_asymmetric(f.key, s[0].key);
        assert(r.drop_first() =~= s);
    } else if f.key == s[0].key {
        assert(r.drop_first() =~= s.drop_first());
    } else {
        lemma_key_lt_total(f.key, s[0].key);
        assert(sorted_fields(s.drop_first()));
        lemma_put_get(s.drop_first(), f, k);
        assert(r[0] == s[0]);
        assert(r.drop_first() =~= put(s.drop_first(), f));
    }
}

/// How insertion changes the length.
pub proof fn lemma_put_len(s: Seq<FieldV>, f: FieldV)
    requires
        sorted_fields(s),
    ensures
        put(s, f).len() == if has_key(s, f.key) {
            s.len()
        } else {
            s.len() + 1
        },
    decreases s.len(),
{
    if s.len() == 0 {
    } else if key_lt(f.key, s[0].key) {
        if has_key(s, f.key) {
            lemma_has_key_index(s, f.key);
            let i = choose|i: int| 0 <= i < s.len() && (#[trigger] s[i]).key == f.key;
            if i == 0 {
                lemma_key_lt_asymmetric(f.key, s[0].key);
            } else {
                assert(key_lt(s[0].key, s[i].key));
                lemma_key_lt_asymmetric(f.key, s[0].key);
                lemma_key_lt_transitive(f.key, s[0].key, s[i].key);
                lemma_key_lt_irreflexive(f.key);
            }
        }
    } else if f.key == s[0].key {
    } else {
        assert(sorted_fields(s.drop_first()));
        lemma_put_len(s.drop_first(), f);
    }
}

/// Insertion of a field the builder accepts keeps every field acceptable.
pub proof fn lemma_put_builder_fields_ok(s: Seq<FieldV>, f: FieldV, c: PayloadConstraints)
    requires
        all_builder_fields_ok(s, c),
        builder_field_ok(f, c),
    ensures
        all_builder_fields_ok(put(s, f), c),
{
    lemma_put_membership(s, f);
    let r = put(s, f);
    assert forall|i: int| 0 <= i < r.len() implies builder_field_ok(#[trigger] r[i], c) by {
        if r[i] != f {
            assert(s.contains(r[i]));
            let m = choose|m: int| 0 <= m < s.len() && s[m] == r[i];
            assert(builder_field_ok(s[m], c));
        }
    }
}

/// Lookup returns the value of the first entry carrying the key.
pub proof fn lemma_get_value_first(s: Seq<FieldV>, k: KeyV, i: int)
    requires
        0 <= i < s.len(),
        s[i].key == k,
        forall|j: int| 0 <= j < i ==> (#[trigger] s[j]).key != k,
    ensures
        get_value(s, k) == Some(s[i].value),
    decreases s.len(),
{
    if i > 0 {
        lemma_get_value_first(s.drop_first(), k, i - 1);
    }
}

/// Lookup misses when no entry carries the key.
pub proof fn lemma_get_value_none(s: Seq<FieldV>, k: KeyV)
    requires
        forall|j: int| 0 <= j < s.len() ==> (#[trigger] s[j]).key != k,
    ensures
        get_value(s, k) is None,
    decreases s.len(),
{
    if s.len() > 0 {
        lemma_get_value_none(s.drop_first(), k);
    }
}

/// Positional form of insertion, as the executable code performs it: `i` is
/// the first position whose key is not below the new key.
pub proof fn lemma_put_at(s: Seq<FieldV>, f: FieldV, i: int)
    requires
        sorted_fields(s),
        0 <= i <= s.len(),
        forall|j: int| 0 <= j < i ==> key_lt((#[trigger] s[j]).key, f.key),
        i < s.len() ==> !key_lt(s[i].key, f.key),
    ensures
        i < s.len() && s[i].key == f.key ==> put(s, f) =~= s.update(i, f),
        !(i < s.len() && s[i].key == f.key) ==> put(s, f) =~= s.insert(i, f),
    decreases s.len(),
{
    if i == 0 {
        if s.len() == 0 {
        } else if s[0].key == f.key {
        } else {
            lemma_key_lt_total(f.key, s[0].key);
        }
    } else {
        assert(key_lt(s[0].key, f.key));
        lemma_key_lt_asymmetric(s[0].key, f.key);
        assert(sorted_fields(s.drop_first()));
        lemma_put_at(s.drop_first(), f, i - 1);
        assert(put(s, f) =~= seq![s[0]] + put(s.drop_first(), f));
        if i < s.len() && s[i].key == f.key {
            assert(s.drop_first()[i - 1].key == f.key);
            assert(s.update(i, f) =~= seq![s[0]] + s.drop_first().update(i - 1, f));
        } else {
            assert(s.insert(i, f) =~= seq![s[0]] + s.drop_first().insert(i - 1, f));
        }
    }
}

/// Appending at the end: inserting a key above every present key.
proof fn lemma_put_append(s: Seq<FieldV>, f: FieldV)
    requires
        sorted_fields(s),
        forall|i: int| 0 <= i < s.len() ==> key_lt((#[trigger] s[i]).key, f.key),
    ensures
        put(s, f) =~= s + seq![f],
    decreases s.len(),
{
    if s.len() != 0 {
        lemma_key_lt_asymmetric(s[0].key, f.key);
        assert(sorted_fields(s.drop_first()));
        lemma_put_append(s.drop_first(), f);
        assert(put(s, f) =~= seq![s[0]] + (s.drop_first() + seq![f]));
    }
}

/// Inserting a run of fields that all sit above the accumulated ones
/// concatenates the two sequences.
proof fn lemma_put_all_ordered(acc: Seq<FieldV>, s: Seq<FieldV>)
    requires
        sorted_fields(acc),
        sorted_fields(s),
        forall|i: int, j: int|
            0 <= i < acc.len() && 0 <= j < s.len() ==> key_lt(
                (#[trigger] acc[i]).key,
                (#[trigger] s[j]).key,
            ),
    ensures
        put_all(acc, s) =~= acc + s,
    decreases s.len(),
{
    if s.len() == 0 {
    } else {
        lemma_put_append(acc, s[0]);
        let acc2 = put(acc, s[0]);
        assert(acc2 =~= acc + seq![s[0]]);
        assert(sorted_fields(acc2)) by {
            assert forall|i: int, j: int| 0 <= i < j < acc2.len() implies key_lt(
                (#[trigger] acc2[i]).key,
                (#[trigger] acc2[j]).key,
            ) by {
                if j < acc.len() {
                } else {
                    assert(acc2[j] == s[0]);
                }
            }
        }
        assert(sorted_fields(s.drop_first()));
        lemma_put_all_ordered(acc2, s.drop_first());
        assert(put_all(acc, s) == put_all(acc2, s.drop_first()));
        assert(acc2 + s.drop_first() =~= acc + s);
    }
}

/// A head below everything passes through the whole fold.
proof fn lemma_put_all_cons(h: FieldV, acc: Seq<FieldV>, s: Seq<FieldV>)
    requires
        forall|i: int| 0 <= i < acc.len() ==> key_lt(h.key, (#[trigger] acc[i]).key),
        forall|j: int| 0 <= j < s.len() ==> key_lt(h.key, (#[trigger] s[j]).key),
    ensures
        put_all(seq![h] + acc, s) =~= seq![h] + put_all(acc, s),
    decreases s.len(),
{
    if s.len() == 0 {
    } else {
        let x = s[0];
        lemma_key_lt_asymmetric(h.key, x.key);
        let ha = seq![h] + acc;
        assert(ha[0] == h);
        assert(put(ha, x) =~= seq![h] + put(acc, x)) by {
            assert(ha.drop_first() =~= acc);
        }
        lemma_put_membership(acc, x);
        assert forall|i: int| 0 <= i < put(acc, x).len() implies key_lt(
            h.key,
            (#[trigger] put(acc, x)[i]).key,
        ) by {
            if put(acc, x)[i] != x {
                assert(acc.contains(put(acc, x)[i]));
                let m = choose|m: int| 0 <= m < acc.len() && acc[m] == put(acc, x)[i];
                assert(key_lt(h.key, acc[m].key));
            }
        }
        lemma_put_all_cons(h, put(acc, x), s.drop_first());
        assert(put_all(ha, s) == put_all(put(ha, x), s.drop_first()));
        assert(put_all(put(ha, x), s.drop_first()) == put_all(
            seq![h] + put(acc, x),
            s.drop_first(),
        ));
    }
}

/// Folding a sorted sequence that already carries the seeded key over a
/// one-field seed rebuilds exactly that sequence.
pub proof fn lemma_put_all_seeded(seed: FieldV, s: Seq<FieldV>)
    requires
        sorted_fields(s),
        has_key(s, seed.key),
    ensures
        put_all(seq![seed], s) =~= s,
    decreases s.len(),
{
    let h = s[0];
    let rest = s.drop_first();
    assert(sorted_fields(rest));
    if h.key == seed.key {
        lemma_key_lt_irreflexive(h.key);
        assert(put(seq![seed], h) =~= seq![h]) by {
            assert(seq![seed].drop_first() =~= Seq::<FieldV>::empty());
            assert(seq![h] + Seq::<FieldV>::empty() =~= seq![h]);
        }
        lemma_put_all_ordered(seq![h], rest);
        assert(put_all(seq![seed], s) == put_all(put(seq![seed], h), rest));
        assert(put_all(seq![h], rest) =~= seq![h] + rest);
        assert(seq![h] + rest =~= s);
    } else {
        assert(has_key(rest, seed.key));
        lemma_has_key_index(rest, seed.key);
        let m = choose|m: int| 0 <= m < rest.len() && (#[trigger] rest[m]).key == seed.key;
        assert(s[m + 1].key == seed.key);
        assert(key_lt(h.key, seed.key));
        assert(put(seq![seed], h) =~= seq![h] + seq![seed]) by {
            lemma_key_lt_asymmetric(h.key, seed.key);
            assert(key_lt(h.key, seed.key));
        }
        lemma_put_all_cons(h, seq![seed], rest);
        lemma_put_all_seeded(seed, rest);
        assert(put_all(seq![seed], s) == put_all(put(seq![seed], h), rest));
        assert(put_all(put(seq![seed], h), rest) == put_all(seq![h] + seq![seed], rest));
        assert(put_all(seq![h] + seq![seed], rest) =~= seq![h] + put_all(seq![seed], rest));
        assert(seq![h] + rest =~= s);
    }
}

} // verus!
