//! Payload metadata data model.
//!
//! The types in this module model the logical metadata that is serialized
//! into payload frames.  Application code assembles fields through
//! [`PayloadBuilder`], which enforces the size constraints as fields are
//! added and injects a default `issued_at` timestamp so downstream
//! consumers can rely on it being present.

use vstd::prelude::*;
use vstd::string::StrSliceExecFns;
use vstd::string::StringExecFns;
use vstd::string::StringSliceAdditionalSpecFns;
use vstd::utf8::encode_utf8;

use crate::format::model::account_charset_reason;
use crate::format::model::account_new_error;
use crate::format::model::all_white;
use crate::format::model::custom_key_reason;
use crate::format::model::default_constraints;
use crate::format::model::extend_result;
use crate::format::model::extend_state;
use crate::format::model::fields_wf;
use crate::format::model::get_value;
use crate::format::model::issued_at_key;
use crate::format::model::key_lt;
use crate::format::model::lemma_get_value_first;
use crate::format::model::lemma_get_value_none;
use crate::format::model::lemma_put_at;
use crate::format::model::lemma_put_builder_fields_ok;
use crate::format::model::lemma_put_get;
use crate::format::model::lemma_put_sorted;
use crate::format::model::put;
use crate::format::model::sorted_fields;
use crate::format::model::validate_field;
use crate::format::model::wk_rank;
use crate::format::model::is_account_byte;
use crate::format::model::is_key_byte;
use crate::format::model::is_white_char;
use crate::format::model::key_chars;
use crate::format::model::key_of_chars;
use crate::format::model::ts_in_range;
use crate::format::model::valid_account_bytes;
use crate::format::model::valid_custom_key_bytes;
use crate::format::model::wk_chars;
use crate::format::model::FieldV;
use crate::format::model::KeyV;
use crate::format::model::PayloadErrV;
use crate::format::model::ValueV;
use crate::format::model::ACCOUNT_ID_MAX_BYTES;
use crate::format::model::TIMESTAMP_MAX_SECONDS;
use crate::format::model::TIMESTAMP_MIN_SECONDS;
use crate::format::util::account_byte_ok;
use crate::format::util::bytes_eq;
use crate::format::util::bytes_less;
use crate::format::util::char_is_white;
use crate::format::util::key_byte_ok;
use crate::format::util::lemma_encode_utf8_nonempty;
use crate::format::util::lemma_valid_account_not_all_white;
use crate::format::util::dec_digits;
use crate::format::util::str_eq;
use crate::format::util::usize_to_string;

verus! {

broadcast use vstd::string::group_string_axioms;

/// The ghost views of a sequence of metadata fields.
pub open spec fn views_of(fields: Seq<MetadataField>) -> Seq<FieldV> {
    fields.map_values(|f: MetadataField| f@)
}

/// Errors raised when metadata does not satisfy payload constraints.
#[derive(Debug, Clone)]
pub enum PayloadError {
    EmptyKey,
    KeyTooLong { key: MetadataKey, limit: usize },
    ValueTooLarge { key: MetadataKey, limit: usize },
    TooManyFields { limit: usize },
    InvalidAccountId(&'static str),
    InvalidCustomKey(&'static str),
    InvalidTimestamp(&'static str),
}

impl View for PayloadError {
    type V = PayloadErrV;

    open spec fn view(&self) -> PayloadErrV {
        match self {
            PayloadError::EmptyKey => PayloadErrV::EmptyKey,
            PayloadError::KeyTooLong { key, limit } => PayloadErrV::KeyTooLong {
                key: key@,
                limit: *limit as int,
            },
            PayloadError::ValueTooLarge { key, limit } => PayloadErrV::ValueTooLarge {
                key: key@,
                limit: *limit as int,
            },
            PayloadError::TooManyFields { limit } => PayloadErrV::TooManyFields {
                limit: *limit as int,
            },
            PayloadError::InvalidAccountId(reason) => PayloadErrV::InvalidAccountId(reason.view()),
            PayloadError::InvalidCustomKey(reason) => PayloadErrV::InvalidCustomKey(reason.view()),
            PayloadError::InvalidTimestamp(reason) => PayloadErrV::InvalidTimestamp(reason.view()),
        }
    }
}

impl PartialEq for PayloadError {
    fn eq(&self, other: &PayloadError) -> (r: bool) {
        match (self, other) {
            (PayloadError::EmptyKey, PayloadError::EmptyKey) => true,
            (
                PayloadError::KeyTooLong { key: k1, limit: l1 },
                PayloadError::KeyTooLong { key: k2, limit: l2 },
            ) => *k1 == *k2 && *l1 == *l2,
            (
                PayloadError::ValueTooLarge { key: k1, limit: l1 },
                PayloadError::ValueTooLarge { key: k2, limit: l2 },
            ) => *k1 == *k2 && *l1 == *l2,
            (
                PayloadError::TooManyFields { limit: l1 },
                PayloadError::TooManyFields { limit: l2 },
            ) => *l1 == *l2,
            (PayloadError::InvalidAccountId(r1), PayloadError::InvalidAccountId(r2)) => str_eq(
                r1,
                r2,
            ),
            (PayloadError::InvalidCustomKey(r1), PayloadError::InvalidCustomKey(r2)) => str_eq(
                r1,
                r2,
            ),
            (PayloadError::InvalidTimestamp(r1), PayloadError::InvalidTimestamp(r2)) => str_eq(
                r1,
                r2,
            ),
            _ => false,
        }
    }
}

impl vstd::std_specs::cmp::PartialEqSpecImpl for PayloadError {
    open spec fn obeys_eq_spec() -> bool {
        true
    }

    open spec fn eq_spec(&self, other: &PayloadError) -> bool {
        self@ == other@
    }
}

/// Enumerates the well-known metadata fields the library understands natively.
#[derive(Debug, Clone, Copy, PartialEq, Eq, Hash, Structural)]
pub enum WellKnownField {
    AccountId,
    SessionId,
    ContentId,
    IssuedAt,
    ExpiresAt,
}

/// The five well-known names, as the string literals the library writes.
pub proof fn lemma_wk_literals()
    ensures
        "account_id"@ == wk_chars(WellKnownField::AccountId),
        "session_id"@ == wk_chars(WellKnownField::SessionId),
        "content_id"@ == wk_chars(WellKnownField::ContentId),
        "issued_at"@ == wk_chars(WellKnownField::IssuedAt),
        "expires_at"@ == wk_chars(WellKnownField::ExpiresAt),
{
    reveal_strlit("account_id");
    reveal_strlit("session_id");
    reveal_strlit("content_id");
    reveal_strlit("issued_at");
    reveal_strlit("expires_at");
    assert("account_id"@ =~= wk_chars(WellKnownField::AccountId));
    assert("session_id"@ =~= wk_chars(WellKnownField::SessionId));
    assert("content_id"@ =~= wk_chars(WellKnownField::ContentId));
    assert("issued_at"@ =~= wk_chars(WellKnownField::IssuedAt));
    assert("expires_at"@ =~= wk_chars(WellKnownField::ExpiresAt));
}

impl WellKnownField {
    /// Returns the canonical lowercase wire key for the field.
    pub fn as_str(&self) -> (r: &'static str)
        ensures
            r@ == wk_chars(*self),
    {
        proof {
            lemma_wk_literals();
        }
        match self {
            WellKnownField::AccountId => "account_id",
            WellKnownField::SessionId => "session_id",
            WellKnownField::ContentId => "content_id",
            WellKnownField::IssuedAt => "issued_at",
            WellKnownField::ExpiresAt => "expires_at",
        }
    }
}

/// Structured metadata key referencing either a well-known or a custom field.
#[derive(Debug, Clone, Eq, Hash)]
pub enum MetadataKey {
    WellKnown(WellKnownField),
    Custom(String),
}

impl View for MetadataKey {
    type V = KeyV;

    open spec fn view(&self) -> KeyV {
        match self {
            MetadataKey::WellKnown(f) => KeyV::WellKnown(*f),
            MetadataKey::Custom(s) => KeyV::Custom(s@),
        }
    }
}

impl PartialEq for MetadataKey {
    fn eq(&self, other: &MetadataKey) -> (r: bool) {
        match (self, other) {
            (MetadataKey::WellKnown(a), MetadataKey::WellKnown(b)) => *a == *b,
            (MetadataKey::Custom(s), MetadataKey::Custom(t)) => str_eq(s.as_str(), t.as_str()),
            _ => false,
        }
    }
}

impl vstd::std_specs::cmp::PartialEqSpecImpl for MetadataKey {
    open spec fn obeys_eq_spec() -> bool {
        true
    }

    open spec fn eq_spec(&self, other: &MetadataKey) -> bool {
        self@ == other@
    }
}

impl MetadataKey {
    /// Create a well-known key.
    pub fn well_known(field: WellKnownField) -> (r: Self)
        ensures
            r@ == KeyV::WellKnown(field),
    {
        MetadataKey::WellKnown(field)
    }

    /// Creates a custom key after validating it: non-empty, ASCII lowercase
    /// letters, digits, `_` and `.` only.
    pub fn custom(key: &str) -> (r: Result<Self, PayloadError>)
        ensures
            key@.len() == 0 ==> (r matches Err(e) && e@ == PayloadErrV::EmptyKey),
            key@.len() > 0 && !valid_custom_key_bytes(key.spec_bytes()) ==> (r matches Err(e) && e@
                == PayloadErrV::InvalidCustomKey(custom_key_reason())),
            valid_custom_key_bytes(key.spec_bytes()) ==> (r matches Ok(k) && k@ == KeyV::Custom(
                key@,
            )),
    {
        if key.is_empty() {
            return Err(PayloadError::EmptyKey);
        }
        proof {
            lemma_encode_utf8_nonempty(key@);
        }
        let bs = key.as_bytes();
        let n = bs.len();
        let mut i: usize = 0;
        while i < n
            invariant
                0 <= i <= n,
                n == key.spec_bytes().len(),
                bs@ == key.spec_bytes(),
                key@.len() > 0,
                key.spec_bytes().len() > 0,
                forall|j: int| 0 <= j < i ==> is_key_byte(#[trigger] key.spec_bytes()[j]),
            decreases n - i,
        {
            if !key_byte_ok(bs[i]) {
                return Err(
                    PayloadError::InvalidCustomKey(
                        "keys must be lowercase ASCII alphanumerics, '.', or '_'",
                    ),
                );
            }
            i += 1;
        }
        Ok(MetadataKey::Custom(key.to_owned()))
    }

    /// Reads a key from its serialized string: the five well-known names map
    /// to their fields, anything else must be a valid custom key.
    pub fn parse(key: &str) -> (r: Result<Self, PayloadError>)
        ensures
            match key_of_chars(key@) {
                Ok(k) => r matches Ok(mk) && mk@ == k,
                Err(e) => r matches Err(pe) && pe@ == e,
            },
    {
        proof {
            lemma_wk_literals();
        }
        if str_eq(key, "account_id") {
            Ok(MetadataKey::WellKnown(WellKnownField::AccountId))
        } else if str_eq(key, "session_id") {
            Ok(MetadataKey::WellKnown(WellKnownField::SessionId))
        } else if str_eq(key, "content_id") {
            Ok(MetadataKey::WellKnown(WellKnownField::ContentId))
        } else if str_eq(key, "issued_at") {
            Ok(MetadataKey::WellKnown(WellKnownField::IssuedAt))
        } else if str_eq(key, "expires_at") {
            Ok(MetadataKey::WellKnown(WellKnownField::ExpiresAt))
        } else {
            Self::custom(key)
        }
    }

    /// Returns the canonical string representation for serialization.
    pub fn as_str(&self) -> (r: &str)
        ensures
            r@ == key_chars(self@),
    {
        match self {
            MetadataKey::WellKnown(field) => field.as_str(),
            MetadataKey::Custom(key) => key.as_str(),
        }
    }
}

/// Account identifier used by payload producers to scope requests.
///
/// Valid identifiers are non-empty, at most 64 bytes, and use ASCII
/// alphanumerics plus `-` and `_`; construction validates this once.
#[derive(Debug, Clone, Eq, Hash)]
pub struct AccountId(String);

impl View for AccountId {
    type V = Seq<char>;

    closed spec fn view(&self) -> Seq<char> {
        self.0@
    }
}

impl PartialEq for AccountId {
    fn eq(&self, other: &AccountId) -> (r: bool) {
        str_eq(self.0.as_str(), other.0.as_str())
    }
}

impl vstd::std_specs::cmp::PartialEqSpecImpl for AccountId {
    open spec fn obeys_eq_spec() -> bool {
        true
    }

    open spec fn eq_spec(&self, other: &AccountId) -> bool {
        self@ == other@
    }
}

impl AccountId {
    /// Create a new account identifier from a string.
    pub fn new(id: &str) -> (r: Result<Self, PayloadError>)
        ensures
            r is Ok <==> valid_account_bytes(id.spec_bytes()),
            match account_new_error(id@) {
                Some(reason) => r matches Err(e) && e@ == PayloadErrV::InvalidAccountId(reason),
                None => r matches Ok(a) && a@ == id@,
            },
    {
        let n = id.unicode_len();
        let mut only_white = true;
        let mut i: usize = 0;
        while i < n
            invariant
                0 <= i <= n,
                n == id@.len(),
                only_white == (forall|j: int| 0 <= j < i ==> is_white_char(#[trigger] id@[j])),
            decreases n - i,
        {
            let w = char_is_white(id.get_char(i));
            only_white = only_white && w;
            i += 1;
        }
        if only_white {
            proof {
                if valid_account_bytes(id.spec_bytes()) {
                    lemma_valid_account_not_all_white(id@);
                }
            }
            return Err(PayloadError::InvalidAccountId("account identifiers cannot be empty"));
        }
        let bs = id.as_bytes();
        if bs.len() > ACCOUNT_ID_MAX_BYTES {
            return Err(PayloadError::InvalidAccountId("account identifier exceeds maximum length"));
        }
        proof {
            lemma_encode_utf8_nonempty(id@);
        }
        let m = bs.len();
        let mut k: usize = 0;
        while k < m
            invariant
                0 <= k <= m,
                m == id.spec_bytes().len(),
                bs@ == id.spec_bytes(),
                !all_white(id@),
                id.spec_bytes().len() <= ACCOUNT_ID_MAX_BYTES,
                forall|j: int| 0 <= j < k ==> is_account_byte(#[trigger] id.spec_bytes()[j]),
            decreases m - k,
        {
            if !account_byte_ok(bs[k]) {
                return Err(
                    PayloadError::InvalidAccountId(
                        "account identifier must be alphanumeric plus '-' or '_'",
                    ),
                );
            }
            k += 1;
        }
        Ok(AccountId(id.to_owned()))
    }

    /// Returns the identifier as a string slice.
    pub fn as_str(&self) -> (r: &str)
        ensures
            r@ == self@,
    {
        self.0.as_str()
    }

    /// Re-checks the structural rules; identifiers are validated when they
    /// are constructed, so this accepts every value the crate can build.
    pub fn validate(&self) -> (r: Result<(), PayloadError>)
        ensures
            r matches Ok(u) <==> valid_account_bytes(encode_utf8(self@)),
            !valid_account_bytes(encode_utf8(self@)) ==> (r matches Err(e) && e@
                == PayloadErrV::InvalidAccountId(account_charset_reason())),
    {
        let bs = self.0.as_str().as_bytes();
        let m = bs.len();
        if m == 0 || m > ACCOUNT_ID_MAX_BYTES {
            return Err(
                PayloadError::InvalidAccountId(
                    "account identifier must be alphanumeric plus '-' or '_'",
                ),
            );
        }
        let mut k: usize = 0;
        while k < m
            invariant
                0 <= k <= m,
                0 < m <= ACCOUNT_ID_MAX_BYTES,
                m == encode_utf8(self@).len(),
                bs@ == encode_utf8(self@),
                forall|j: int| 0 <= j < k ==> is_account_byte(#[trigger] encode_utf8(self@)[j]),
            decreases m - k,
        {
            if !account_byte_ok(bs[k]) {
                return Err(
                    PayloadError::InvalidAccountId(
                        "account identifier must be alphanumeric plus '-' or '_'",
                    ),
                );
            }
            k += 1;
        }
        Ok(())
    }
}

/// Timestamp anchored to the Unix epoch, held as whole seconds.
///
/// The representable range is about 100 years before the epoch up to the
/// end of year 9999; construction outside this range fails.
#[derive(Debug, Clone, Copy, PartialEq, Eq, Structural)]
pub struct MetadataTimestamp {
    secs: i64,
}

#[verifier::type_invariant]
pub closed spec fn timestamp_inv(t: MetadataTimestamp) -> bool {
    ts_in_range(t.seconds())
}

impl View for MetadataTimestamp {
    type V = int;

    open spec fn view(&self) -> int {
        self.seconds()
    }
}

impl MetadataTimestamp {
    /// Seconds since the Unix epoch, as a specification value.
    pub closed spec fn seconds(&self) -> int {
        self.secs as int
    }

    /// Returns the current wall-clock time, clamped to the representable
    /// range.
    pub fn now() -> (r: Self)
        ensures
            ts_in_range(r.seconds()),
    {
        let (before_epoch, magnitude) = clock_unix_offset();
        let secs: i64 = if before_epoch {
            if magnitude >= 3_155_760_000u64 {
                TIMESTAMP_MIN_SECONDS
            } else {
                -(magnitude as i64)
            }
        } else {
            if magnitude >= 253_402_300_800u64 {
                TIMESTAMP_MAX_SECONDS
            } else {
                magnitude as i64
            }
        };
        MetadataTimestamp { secs }
    }

    /// Create a timestamp from seconds since the Unix epoch.
    pub fn from_unix_seconds(secs: i64) -> (r: Result<Self, PayloadError>)
        ensures
            r is Ok <==> ts_in_range(secs as int),
            match crate::format::model::ts_new_error(secs as int) {
                Some(reason) => r matches Err(e) && e@ == PayloadErrV::InvalidTimestamp(reason),
                None => r matches Ok(t) && t.seconds() == secs as int,
            },
    {
        if secs > TIMESTAMP_MAX_SECONDS {
            Err(PayloadError::InvalidTimestamp("timestamp exceeds supported range"))
        } else if secs == i64::MIN {
            Err(PayloadError::InvalidTimestamp("seconds precede the representable range"))
        } else if secs < TIMESTAMP_MIN_SECONDS {
            Err(PayloadError::InvalidTimestamp("timestamp precedes supported range"))
        } else {
            Ok(MetadataTimestamp { secs })
        }
    }

    /// Returns seconds relative to the Unix epoch.
    pub fn to_unix_seconds(&self) -> (r: Result<i64, PayloadError>)
        ensures
            r matches Ok(s) && s as int == self.seconds(),
            ts_in_range(self.seconds()),
    {
        proof {
            use_type_invariant(self);
        }
        Ok(self.secs)
    }
}

/// Relies on `std::time::SystemTime::now` and `duration_since(UNIX_EPOCH)`:
/// the pair is `(true, magnitude)` when the clock reads before the Unix
/// epoch, otherwise `(false, seconds since the epoch)`.  Nothing is assumed
/// about the value the clock reports.
#[verifier::external_body]
fn clock_unix_offset() -> (r: (bool, u64)) {
    match std::time::SystemTime::now().duration_since(std::time::UNIX_EPOCH) {
        Ok(d) => (false, d.as_secs()),
        Err(e) => (true, e.duration().as_secs()),
    }
}

/// Structured representation of metadata values.
#[derive(Debug, Clone, Eq)]
pub enum MetadataValue {
    Account(AccountId),
    Timestamp(MetadataTimestamp),
    Text(String),
    Integer(i64),
    Bool(bool),
    Blob(Vec<u8>),
}

impl View for MetadataValue {
    type V = ValueV;

    open spec fn view(&self) -> ValueV {
        match self {
            MetadataValue::Account(a) => ValueV::Account(a@),
            MetadataValue::Timestamp(t) => ValueV::Timestamp(t@),
            MetadataValue::Text(s) => ValueV::Text(s@),
            MetadataValue::Integer(x) => ValueV::Integer(*x as int),
            MetadataValue::Bool(b) => ValueV::Bool(*b),
            MetadataValue::Blob(bs) => ValueV::Blob(bs@),
        }
    }
}

impl PartialEq for MetadataValue {
    fn eq(&self, other: &MetadataValue) -> (r: bool) {
        match (self, other) {
            (MetadataValue::Account(a), MetadataValue::Account(b)) => *a == *b,
            (MetadataValue::Timestamp(a), MetadataValue::Timestamp(b)) => *a == *b,
            (MetadataValue::Text(a), MetadataValue::Text(b)) => *a == *b,
            (MetadataValue::Integer(a), MetadataValue::Integer(b)) => *a == *b,
            (MetadataValue::Bool(a), MetadataValue::Bool(b)) => *a == *b,
            (MetadataValue::Blob(a), MetadataValue::Blob(b)) => bytes_eq(
                a.as_slice(),
                b.as_slice(),
            ),
            _ => false,
        }
    }
}

impl vstd::std_specs::cmp::PartialEqSpecImpl for MetadataValue {
    open spec fn obeys_eq_spec() -> bool {
        true
    }

    open spec fn eq_spec(&self, other: &MetadataValue) -> bool {
        self@ == other@
    }
}

impl MetadataValue {
    /// Size the value counts for against the constraints, in bytes.
    fn estimated_size_bytes(&self) -> (r: usize)
        ensures
            r as int == crate::format::model::value_size(self@),
    {
        match self {
            MetadataValue::Account(account) => account.as_str().as_bytes().len(),
            MetadataValue::Timestamp(_) => 16,
            MetadataValue::Text(text) => text.as_str().as_bytes().len(),
            MetadataValue::Integer(_) => 8,
            MetadataValue::Bool(_) => 1,
            MetadataValue::Blob(bytes) => bytes.len(),
        }
    }

    fn as_account_id(&self) -> (r: Option<&AccountId>)
        ensures
            match self@ {
                ValueV::Account(s) => r matches Some(a) && a@ == s,
                _ => r is None,
            },
    {
        if let MetadataValue::Account(account) = self {
            Some(account)
        } else {
            None
        }
    }

    fn as_timestamp(&self) -> (r: Option<&MetadataTimestamp>)
        ensures
            match self@ {
                ValueV::Timestamp(t) => r matches Some(ts) && ts@ == t,
                _ => r is None,
            },
    {
        if let MetadataValue::Timestamp(ts) = self {
            Some(ts)
        } else {
            None
        }
    }
}

/// Single metadata entry tying a key to a typed value.
#[derive(Debug, Clone, Eq)]
pub struct MetadataField {
    pub key: MetadataKey,
    pub value: MetadataValue,
}

impl View for MetadataField {
    type V = FieldV;

    open spec fn view(&self) -> FieldV {
        FieldV { key: self.key@, value: self.value@ }
    }
}

impl PartialEq for MetadataField {
    fn eq(&self, other: &MetadataField) -> (r: bool) {
        self.key == other.key && self.value == other.value
    }
}

impl vstd::std_specs::cmp::PartialEqSpecImpl for MetadataField {
    open spec fn obeys_eq_spec() -> bool {
        true
    }

    open spec fn eq_spec(&self, other: &MetadataField) -> bool {
        self@ == other@
    }
}

impl MetadataField {
    /// Construct a metadata field.
    pub fn new(key: MetadataKey, value: MetadataValue) -> (r: Self)
        ensures
            r@ == (FieldV { key: key@, value: value@ }),
    {
        MetadataField { key, value }
    }
}

/// Helper so application code can construct metadata fields succinctly: the
/// key string is parsed as [`MetadataKey::parse`] reads it.
pub fn metadata_field(key: &str, value: MetadataValue) -> (r: Result<MetadataField, PayloadError>)
    ensures
        match key_of_chars(key@) {
            Ok(k) => r matches Ok(f) && f@ == (FieldV { key: k, value: value@ }),
            Err(e) => r matches Err(pe) && pe@ == e,
        },
{
    let parsed = MetadataKey::parse(key)?;
    Ok(MetadataField::new(parsed, value))
}

/// Domain-specific metadata constraints that keep payloads manageable.
///
/// These values cap the size and shape of metadata so it can be transported
/// in payload frames with predictable bounds.
#[derive(Debug, Clone, Copy, PartialEq, Eq, Structural)]
pub struct PayloadConstraints {
    pub max_fields: usize,
    pub max_key_bytes: usize,
    pub max_text_bytes: usize,
    pub max_blob_bytes: usize,
}

impl Default for PayloadConstraints {
    /// The default limits: 32 fields, 64-byte keys, 512-byte text values,
    /// 1024-byte blobs.
    fn default() -> (r: Self)
        ensures
            r == default_constraints(),
    {
        PayloadConstraints { max_fields: 32, max_key_bytes: 64, max_text_bytes: 512, max_blob_bytes: 1024 }
    }
}

/// Builder that enforces payload constraints when assembling metadata fields.
///
/// Fields are kept sorted by the key order, so a builder (and the frame it
/// yields) is a map with a deterministic iteration order.  Construction seeds
/// a default `issued_at` timestamp, which callers can override.
#[derive(Debug, Clone)]
pub struct PayloadBuilder {
    constraints: PayloadConstraints,
    entries: Vec<MetadataField>,
}

impl View for PayloadBuilder {
    type V = Seq<FieldV>;

    closed spec fn view(&self) -> Seq<FieldV> {
        views_of(self.entries@)
    }
}

impl PayloadBuilder {
    /// The constraints this builder enforces.
    pub closed spec fn spec_constraints(&self) -> PayloadConstraints {
        self.constraints
    }

    /// Builder invariant: sorted unique keys, every field accepted by the
    /// validator (or the seeded `issued_at`), and `issued_at` present.
    pub open spec fn wf(&self) -> bool {
        fields_wf(self@, self.spec_constraints())
    }

    /// Construct a builder with default constraints and the default
    /// `issued_at` field.
    pub fn new() -> (r: Self)
        ensures
            r.wf(),
            r.spec_constraints() == default_constraints(),
            exists|t: int|
                ts_in_range(t) && r@ == seq![
                    (FieldV { key: issued_at_key(), value: ValueV::Timestamp(t) }),
                ],
    {
        Self::with_constraints(PayloadConstraints::default())
    }

    /// Construct a builder with custom constraints.
    pub fn with_constraints(constraints: PayloadConstraints) -> (r: Self)
        ensures
            r.wf(),
            r.spec_constraints() == constraints,
            exists|t: int|
                ts_in_range(t) && r@ == seq![
                    (FieldV { key: issued_at_key(), value: ValueV::Timestamp(t) }),
                ],
    {
        // The default issued_at keeps downstream consumers consistent;
        // callers can override it before building.
        let ts = MetadataTimestamp::now();
        let field = MetadataField::new(
            MetadataKey::well_known(WellKnownField::IssuedAt),
            MetadataValue::Timestamp(ts),
        );
        let mut entries: Vec<MetadataField> = Vec::new();
        entries.push(field);
        let r = PayloadBuilder { constraints, entries };
        proof {
            assert(r@ =~= seq![(FieldV { key: issued_at_key(), value: ValueV::Timestamp(ts@) })]);
            assert(ts_in_range(ts@) && r@ == seq![
                (FieldV { key: issued_at_key(), value: ValueV::Timestamp(ts@) }),
            ]);
        }
        r
    }

    /// Insert a general metadata field after validating constraints.  On
    /// success the field replaces any existing value for the same key; on
    /// failure the builder is unchanged and the error names the offending
    /// key and limit.
    pub fn put_field(&mut self, field: MetadataField) -> (r: Result<&mut PayloadBuilder, PayloadError>)
        ensures
            match validate_field(field@, old(self).spec_constraints()) {
                Some(e) => r matches Err(pe) && pe@ == e && final(self)@ == old(self)@ && final(self).spec_constraints() == old(self).spec_constraints(),
                None => r matches Ok(b) && b.spec_constraints() == old(self).spec_constraints()
                    && final(b)@ == final(self)@
                    && final(b).spec_constraints() == final(self).spec_constraints()
                    && (old(self).wf() ==> (b@ == put(old(self)@, field@) && b.wf())),
            },
    {
        match self.validate(&field) {
            Err(e) => {
                return Err(e);
            },
            Ok(u) => {},
        }
        if let MetadataValue::Timestamp(ts) = &field.value {
            proof {
                use_type_invariant(ts);
            }
        }
        let n = self.entries.len();
        let mut i: usize = 0;
        while i < n && key_before(&self.entries[i].key, &field.key)
            invariant
                0 <= i <= n,
                n == self.entries.len(),
                forall|j: int| 0 <= j < i ==> key_lt((#[trigger] self@[j]).key, field@.key),
            decreases n - i,
        {
            i += 1;
        }
        let ghost prior = self@;
        let ghost c = self.spec_constraints();
        let ghost fv = field@;
        if i < n && self.entries[i].key == field.key {
            self.entries.set(i, field);
            proof {
                assert(self@ =~= prior.update(i as int, fv));
                if fields_wf(prior, c) {
                    lemma_put_at(prior, fv, i as int);
                    assert(self@ == put(prior, fv));
                }
            }
        } else {
            self.entries.insert(i, field);
            proof {
                assert(self@ =~= prior.insert(i as int, fv));
                if fields_wf(prior, c) {
                    lemma_put_at(prior, fv, i as int);
                    assert(self@ == put(prior, fv));
                }
            }
        }
        proof {
            if fields_wf(prior, c) {
                lemma_put_sorted(prior, fv);
                lemma_put_builder_fields_ok(prior, fv, c);
                lemma_put_get(prior, fv, issued_at_key());
            }
        }
        Ok(self)
    }

    /// Extend the builder with multiple fields at once, stopping at the
    /// first rejected field (fields inserted before it are kept).
    pub fn extend_fields(&mut self, fields: Vec<MetadataField>) -> (r: Result<
        &mut PayloadBuilder,
        PayloadError,
    >)
        ensures
            old(self).wf() ==> match extend_result(
                old(self)@,
                views_of(fields@),
                old(self).spec_constraints(),
            ) {
                Ok(m) => r matches Ok(b) && b@ == m && b.spec_constraints() == old(self).spec_constraints() && b.wf() && final(b)@ == final(self)@
                    && final(b).spec_constraints() == final(self).spec_constraints(),
                Err(e) => r matches Err(pe) && pe@ == e && final(self)@ == extend_state(
                    old(self)@,
                    views_of(fields@),
                    old(self).spec_constraints(),
                ) && final(self).spec_constraints() == old(self).spec_constraints() && final(self).wf(),
            },
    {
        let ghost all = views_of(fields@);
        let ghost c = old(self).spec_constraints();
        let mut fs = fields;
        #[verifier::loop_isolation(false)]
        while fs.len() > 0
            invariant
                self.spec_constraints() == c,
                old(self).wf() ==> self.wf(),
                old(self).wf() ==> extend_state(old(self)@, all, c) == extend_state(
                    self@,
                    views_of(fs@),
                    c,
                ),
                old(self).wf() ==> extend_result(old(self)@, all, c) == extend_result(
                    self@,
                    views_of(fs@),
                    c,
                ),
            decreases fs.len(),
        {
            let ghost before = self@;
            let ghost rem = views_of(fs@);
            let f = fs.remove(0);
            proof {
                assert(views_of(fs@) =~= rem.drop_first());
                assert(f@ == rem[0]);
            }
            let ghost cc = self.spec_constraints();
            match self.put_field(f) {
                Err(e) => {
                    proof {
                        if old(self).wf() {
                            assert(validate_field(rem[0], cc) is Some);
                            assert(extend_result(before, rem, cc) == Err::<Seq<FieldV>, PayloadErrV>(e@));
                            assert(extend_state(before, rem, cc) == before);
                        }
                    }
                    return Err(e);
                },
                Ok(u) => {},
            }
        }
        proof {
            assert(views_of(fs@) =~= Seq::<FieldV>::empty());
        }
        Ok(self)
    }

    /// Convenience setter for the account identifier.
    pub fn account_id(&mut self, account_id: &str) -> (r: Result<&mut PayloadBuilder, PayloadError>)
        ensures
            match account_new_error(account_id@) {
                Some(reason) => r matches Err(e) && e@ == PayloadErrV::InvalidAccountId(reason)
                    && final(self)@ == old(self)@ && final(self).spec_constraints() == old(self).spec_constraints(),
                None => match validate_field(
                    (FieldV {
                        key: KeyV::WellKnown(WellKnownField::AccountId),
                        value: ValueV::Account(account_id@),
                    }),
                    old(self).spec_constraints(),
                ) {
                    Some(e) => r matches Err(pe) && pe@ == e && final(self)@ == old(self)@
                        && final(self).spec_constraints() == old(self).spec_constraints(),
                    None => r matches Ok(b) && b.spec_constraints() == old(self).spec_constraints() && final(b)@ == final(self)@
                        && final(b).spec_constraints() == final(self).spec_constraints() && (old(self).wf() ==> (b@ == put(
                        old(self)@,
                        (FieldV {
                            key: KeyV::WellKnown(WellKnownField::AccountId),
                            value: ValueV::Account(account_id@),
                        }),
                    ) && b.wf())),
                },
            },
    {
        let account = match AccountId::new(account_id) {
            Ok(a) => a,
            Err(e) => {
                return Err(e);
            },
        };
        let field = MetadataField::new(
            MetadataKey::well_known(WellKnownField::AccountId),
            MetadataValue::Account(account),
        );
        self.put_field(field)
    }

    /// Convenience setter overriding the default issuance timestamp.
    pub fn issued_at(&mut self, timestamp: MetadataTimestamp) -> (r: Result<
        &mut PayloadBuilder,
        PayloadError,
    >)
        ensures
            match validate_field(
                (FieldV { key: issued_at_key(), value: ValueV::Timestamp(timestamp@) }),
                old(self).spec_constraints(),
            ) {
                Some(e) => r matches Err(pe) && pe@ == e && final(self)@ == old(self)@
                    && final(self).spec_constraints() == old(self).spec_constraints(),
                None => r matches Ok(b) && b.spec_constraints() == old(self).spec_constraints()
                    && final(b)@ == final(self)@
                    && final(b).spec_constraints() == final(self).spec_constraints() && (old(self).wf() ==> (b@ == put(
                    old(self)@,
                    (FieldV { key: issued_at_key(), value: ValueV::Timestamp(timestamp@) }),
                ) && b.wf())),
            },
    {
        let field = MetadataField::new(
            MetadataKey::well_known(WellKnownField::IssuedAt),
            MetadataValue::Timestamp(timestamp),
        );
        self.put_field(field)
    }

    /// Convenience setter for expiration timestamps.
    pub fn expires_at(&mut self, timestamp: MetadataTimestamp) -> (r: Result<
        &mut PayloadBuilder,
        PayloadError,
    >)
        ensures
            match validate_field(
                (FieldV {
                    key: KeyV::WellKnown(WellKnownField::ExpiresAt),
                    value: ValueV::Timestamp(timestamp@),
                }),
                old(self).spec_constraints(),
            ) {
                Some(e) => r matches Err(pe) && pe@ == e && final(self)@ == old(self)@
                    && final(self).spec_constraints() == old(self).spec_constraints(),
                None => r matches Ok(b) && b.spec_constraints() == old(self).spec_constraints()
                    && final(b)@ == final(self)@
                    && final(b).spec_constraints() == final(self).spec_constraints() && (old(self).wf() ==> (b@ == put(
                    old(self)@,
                    (FieldV {
                        key: KeyV::WellKnown(WellKnownField::ExpiresAt),
                        value: ValueV::Timestamp(timestamp@),
                    }),
                ) && b.wf())),
            },
    {
        let field = MetadataField::new(
            MetadataKey::well_known(WellKnownField::ExpiresAt),
            MetadataValue::Timestamp(timestamp),
        );
        self.put_field(field)
    }

    /// Attach an arbitrary UTF-8 metadata field.
    pub fn text_field(&mut self, key: &str, value: &str) -> (r: Result<
        &mut PayloadBuilder,
        PayloadError,
    >)
        ensures
            match key_of_chars(key@) {
                Err(e) => r matches Err(pe) && pe@ == e && final(self)@ == old(self)@
                    && final(self).spec_constraints() == old(self).spec_constraints(),
                Ok(k) => match validate_field(
                    (FieldV { key: k, value: ValueV::Text(value@) }),
                    old(self).spec_constraints(),
                ) {
                    Some(e) => r matches Err(pe) && pe@ == e && final(self)@ == old(self)@
                        && final(self).spec_constraints() == old(self).spec_constraints(),
                    None => r matches Ok(b) && b.spec_constraints() == old(self).spec_constraints() && final(b)@ == final(self)@
                        && final(b).spec_constraints() == final(self).spec_constraints() && (old(self).wf() ==> (b@ == put(
                        old(self)@,
                        (FieldV { key: k, value: ValueV::Text(value@) }),
                    ) && b.wf())),
                },
            },
    {
        let parsed = match MetadataKey::parse(key) {
            Ok(k) => k,
            Err(e) => {
                return Err(e);
            },
        };
        let field = MetadataField::new(parsed, MetadataValue::Text(value.to_owned()));
        self.put_field(field)
    }

    /// Attach metadata as raw bytes for future specialized handling.
    pub fn binary_field(&mut self, key: &str, value: Vec<u8>) -> (r: Result<
        &mut PayloadBuilder,
        PayloadError,
    >)
        ensures
            match key_of_chars(key@) {
                Err(e) => r matches Err(pe) && pe@ == e && final(self)@ == old(self)@
                    && final(self).spec_constraints() == old(self).spec_constraints(),
                Ok(k) => match validate_field(
                    (FieldV { key: k, value: ValueV::Blob(value@) }),
                    old(self).spec_constraints(),
                ) {
                    Some(e) => r matches Err(pe) && pe@ == e && final(self)@ == old(self)@
                        && final(self).spec_constraints() == old(self).spec_constraints(),
                    None => r matches Ok(b) && b.spec_constraints() == old(self).spec_constraints() && final(b)@ == final(self)@
                        && final(b).spec_constraints() == final(self).spec_constraints() && (old(self).wf() ==> (b@ == put(
                        old(self)@,
                        (FieldV { key: k, value: ValueV::Blob(value@) }),
                    ) && b.wf())),
                },
            },
    {
        let parsed = match MetadataKey::parse(key) {
            Ok(k) => k,
            Err(e) => {
                return Err(e);
            },
        };
        let field = MetadataField::new(parsed, MetadataValue::Blob(value));
        self.put_field(field)
    }

    /// Attach a boolean field.
    pub fn bool_field(&mut self, key: &str, value: bool) -> (r: Result<
        &mut PayloadBuilder,
        PayloadError,
    >)
        ensures
            match key_of_chars(key@) {
                Err(e) => r matches Err(pe) && pe@ == e && final(self)@ == old(self)@
                    && final(self).spec_constraints() == old(self).spec_constraints(),
                Ok(k) => match validate_field(
                    (FieldV { key: k, value: ValueV::Bool(value) }),
                    old(self).spec_constraints(),
                ) {
                    Some(e) => r matches Err(pe) && pe@ == e && final(self)@ == old(self)@
                        && final(self).spec_constraints() == old(self).spec_constraints(),
                    None => r matches Ok(b) && b.spec_constraints() == old(self).spec_constraints() && final(b)@ == final(self)@
                        && final(b).spec_constraints() == final(self).spec_constraints() && (old(self).wf() ==> (b@ == put(
                        old(self)@,
                        (FieldV { key: k, value: ValueV::Bool(value) }),
                    ) && b.wf())),
                },
            },
    {
        let parsed = match MetadataKey::parse(key) {
            Ok(k) => k,
            Err(e) => {
                return Err(e);
            },
        };
        let field = MetadataField::new(parsed, MetadataValue::Bool(value));
        self.put_field(field)
    }

    /// Attach an integer field.
    pub fn int_field(&mut self, key: &str, value: i64) -> (r: Result<
        &mut PayloadBuilder,
        PayloadError,
    >)
        ensures
            match key_of_chars(key@) {
                Err(e) => r matches Err(pe) && pe@ == e && final(self)@ == old(self)@
                    && final(self).spec_constraints() == old(self).spec_constraints(),
                Ok(k) => match validate_field(
                    (FieldV { key: k, value: ValueV::Integer(value as int) }),
                    old(self).spec_constraints(),
                ) {
                    Some(e) => r matches Err(pe) && pe@ == e && final(self)@ == old(self)@
                        && final(self).spec_constraints() == old(self).spec_constraints(),
                    None => r matches Ok(b) && b.spec_constraints() == old(self).spec_constraints() && final(b)@ == final(self)@
                        && final(b).spec_constraints() == final(self).spec_constraints() && (old(self).wf() ==> (b@ == put(
                        old(self)@,
                        (FieldV { key: k, value: ValueV::Integer(value as int) }),
                    ) && b.wf())),
                },
            },
    {
        let parsed = match MetadataKey::parse(key) {
            Ok(k) => k,
            Err(e) => {
                return Err(e);
            },
        };
        let field = MetadataField::new(parsed, MetadataValue::Integer(value));
        self.put_field(field)
    }

    /// Finalize the builder, returning a validated payload frame.  The field
    /// count is checked only here, so a builder may transiently exceed the
    /// cap and be corrected before building.
    pub fn build(self) -> (r: Result<PayloadFrame, PayloadError>)
        ensures
            self@.len() > self.spec_constraints().max_fields ==> (r matches Err(e) && e@
                == PayloadErrV::TooManyFields { limit: self.spec_constraints().max_fields as int }),
            self@.len() <= self.spec_constraints().max_fields ==> (r matches Ok(f) && f@ == self@
                && f.spec_constraints() == self.spec_constraints()),
    {
        if self.entries.len() > self.constraints.max_fields {
            return Err(PayloadError::TooManyFields { limit: self.constraints.max_fields });
        }
        Ok(PayloadFrame { entries: self.entries, constraints: self.constraints })
    }

    fn validate(&self, field: &MetadataField) -> (r: Result<(), PayloadError>)
        ensures
            match validate_field(field@, self.spec_constraints()) {
                None => r is Ok,
                Some(e) => r matches Err(pe) && pe@ == e,
            },
    {
        let key_len = field.key.as_str().as_bytes().len();
        if key_len == 0 {
            return Err(PayloadError::EmptyKey);
        }
        if key_len > self.constraints.max_key_bytes {
            return Err(
                PayloadError::KeyTooLong {
                    key: clone_key(&field.key),
                    limit: self.constraints.max_key_bytes,
                },
            );
        }
        let value_len = field.value.estimated_size_bytes();
        match &field.value {
            MetadataValue::Text(t) => {
                if value_len > self.constraints.max_text_bytes {
                    Err(
                        PayloadError::ValueTooLarge {
                            key: clone_key(&field.key),
                            limit: self.constraints.max_text_bytes,
                        },
                    )
                } else {
                    Ok(())
                }
            },
            MetadataValue::Blob(b) => {
                if value_len > self.constraints.max_blob_bytes {
                    Err(
                        PayloadError::ValueTooLarge {
                            key: clone_key(&field.key),
                            limit: self.constraints.max_blob_bytes,
                        },
                    )
                } else {
                    Ok(())
                }
            },
            MetadataValue::Account(account) => {
                match account.validate() {
                    Ok(u) => Ok(()),
                    Err(e) => Err(e),
                }
            },
            _ => Ok(()),
        }
    }
}

/// Deep copy of a key, with its view preserved.
fn clone_key(k: &MetadataKey) -> (r: MetadataKey)
    ensures
        r@ == k@,
{
    match k {
        MetadataKey::WellKnown(f) => MetadataKey::WellKnown(*f),
        MetadataKey::Custom(s) => MetadataKey::Custom(s.clone()),
    }
}

/// Rank of a well-known field in the key order.
fn wk_rank_exec(f: WellKnownField) -> (r: u8)
    ensures
        r as int == wk_rank(f),
{
    match f {
        WellKnownField::AccountId => 0,
        WellKnownField::SessionId => 1,
        WellKnownField::ContentId => 2,
        WellKnownField::IssuedAt => 3,
        WellKnownField::ExpiresAt => 4,
    }
}

/// Whether `a` sorts strictly before `b` in the key order.
fn key_before(a: &MetadataKey, b: &MetadataKey) -> (r: bool)
    ensures
        r == key_lt(a@, b@),
{
    match (a, b) {
        (MetadataKey::WellKnown(x), MetadataKey::WellKnown(y)) => wk_rank_exec(*x) < wk_rank_exec(
            *y,
        ),
        (MetadataKey::WellKnown(_), MetadataKey::Custom(_)) => true,
        (MetadataKey::Custom(_), MetadataKey::WellKnown(_)) => false,
        (MetadataKey::Custom(s), MetadataKey::Custom(t)) => bytes_less(
            s.as_str().as_bytes(),
            t.as_str().as_bytes(),
        ),
    }
}

/// Public wrapper around the metadata stored in a payload frame.
///
/// Frames are immutable once built.  Callers query fields via typed helpers
/// or read the entries in their deterministic (key) order.
#[derive(Debug, Clone)]
pub struct PayloadFrame {
    entries: Vec<MetadataField>,
    constraints: PayloadConstraints,
}

impl View for PayloadFrame {
    type V = Seq<FieldV>;

    closed spec fn view(&self) -> Seq<FieldV> {
        views_of(self.entries@)
    }
}

impl PartialEq for PayloadFrame {
    fn eq(&self, other: &PayloadFrame) -> (r: bool) {
        if self.constraints != other.constraints {
            return false;
        }
        if self.entries.len() != other.entries.len() {
            proof {
                assert(self@.len() != other@.len());
            }
            return false;
        }
        let n = self.entries.len();
        let mut i: usize = 0;
        while i < n
            invariant
                0 <= i <= n,
                n == self.entries.len() == other.entries.len(),
                forall|j: int| 0 <= j < i ==> self@[j] == other@[j],
            decreases n - i,
        {
            if !(self.entries[i] == other.entries[i]) {
                proof {
                    if self@ == other@ {
                        assert(self@[i as int] == other@[i as int]);
                    }
                }
                return false;
            }
            i += 1;
        }
        proof {
            assert(self@ =~= other@);
        }
        true
    }
}

impl vstd::std_specs::cmp::PartialEqSpecImpl for PayloadFrame {
    open spec fn obeys_eq_spec() -> bool {
        true
    }

    open spec fn eq_spec(&self, other: &PayloadFrame) -> bool {
        self@ == other@ && self.spec_constraints() == other.spec_constraints()
    }
}

impl PayloadFrame {
    /// The constraints that were in effect when the frame was created.
    pub closed spec fn spec_constraints(&self) -> PayloadConstraints {
        self.constraints
    }

    /// Frame invariant: what `build` guarantees of every frame.
    pub open spec fn wf(&self) -> bool {
        fields_wf(self@, self.spec_constraints()) && self@.len()
            <= self.spec_constraints().max_fields
    }

    /// Creates a frame with default constraints and default fields: exactly
    /// the seeded `issued_at` timestamp.
    pub fn new() -> (r: Result<Self, PayloadError>)
        ensures
            r matches Ok(f) && f.wf() && f.spec_constraints() == default_constraints(),
            r matches Ok(f) ==> exists|t: int|
                ts_in_range(t) && f@ == seq![
                    (FieldV { key: issued_at_key(), value: ValueV::Timestamp(t) }),
                ],
            r matches Ok(f) ==> f@.len() == 1 && f@[0].key == issued_at_key() && f@[0].value
                is Timestamp,
    {
        PayloadBuilder::new().build()
    }

    /// Builds a frame from a list of metadata fields, under the default
    /// constraints and with the default `issued_at` seeded first.
    pub fn from_fields(fields: Vec<MetadataField>) -> (r: Result<Self, PayloadError>)
        ensures
            exists|t: int|
                ts_in_range(t) && match extend_result(
                    seq![(FieldV { key: issued_at_key(), value: ValueV::Timestamp(t) })],
                    views_of(fields@),
                    default_constraints(),
                ) {
                    Err(e) => r matches Err(pe) && pe@ == e,
                    Ok(m) => if m.len() > default_constraints().max_fields {
                        r matches Err(pe) && pe@ == (PayloadErrV::TooManyFields {
                            limit: default_constraints().max_fields as int,
                        })
                    } else {
                        r matches Ok(f) && f@ == m && f.spec_constraints() == default_constraints()
                            && f.wf()
                    },
                },
    {
        let mut builder = PayloadBuilder::new();
        match builder.extend_fields(fields) {
            Err(e) => Err(e),
            Ok(u) => builder.build(),
        }
    }

    /// The constraints in effect when the frame was created.
    pub fn constraints(&self) -> (r: &PayloadConstraints)
        ensures
            *r == self.spec_constraints(),
    {
        &self.constraints
    }

    /// The metadata value associated with a key, if present.
    pub fn get(&self, key: &MetadataKey) -> (r: Option<&MetadataValue>)
        ensures
            match get_value(self@, key@) {
                Some(v) => r matches Some(mv) && mv@ == v,
                None => r is None,
            },
    {
        let n = self.entries.len();
        let mut i: usize = 0;
        while i < n
            invariant
                0 <= i <= n,
                n == self.entries.len(),
                forall|j: int| 0 <= j < i ==> (#[trigger] self@[j]).key != key@,
            decreases n - i,
        {
            if self.entries[i].key == *key {
                proof {
                    lemma_get_value_first(self@, key@, i as int);
                }
                return Some(&self.entries[i].value);
            }
            i += 1;
        }
        proof {
            lemma_get_value_none(self@, key@);
        }
        None
    }

    /// The stored metadata entries, in deterministic (key) order.
    pub fn iter(&self) -> (r: &Vec<MetadataField>)
        ensures
            r@.len() == self@.len(),
            forall|i: int| 0 <= i < r@.len() ==> (#[trigger] r@[i])@ == self@[i],
    {
        &self.entries
    }

    /// The well-known account identifier field, if present.
    pub fn account_id(&self) -> (r: Option<&AccountId>)
        ensures
            match get_value(self@, KeyV::WellKnown(WellKnownField::AccountId)) {
                Some(v) => match v {
                    ValueV::Account(s) => r matches Some(a) && a@ == s,
                    _ => r is None,
                },
                None => r is None,
            },
    {
        match self.get(&MetadataKey::well_known(WellKnownField::AccountId)) {
            Some(v) => v.as_account_id(),
            None => None,
        }
    }

    /// The issuance timestamp, if a caller did not remove the default.
    pub fn issued_at(&self) -> (r: Option<&MetadataTimestamp>)
        ensures
            match get_value(self@, issued_at_key()) {
                Some(v) => match v {
                    ValueV::Timestamp(t) => r matches Some(ts) && ts@ == t,
                    _ => r is None,
                },
                None => r is None,
            },
    {
        match self.get(&MetadataKey::well_known(WellKnownField::IssuedAt)) {
            Some(v) => v.as_timestamp(),
            None => None,
        }
    }
}

/// The human-readable description of a payload error.
pub open spec fn payload_error_message(e: PayloadErrV) -> Seq<char> {
    match e {
        PayloadErrV::EmptyKey => "metadata keys cannot be empty"@,
        PayloadErrV::KeyTooLong { key, limit } => "metadata key '"@ + key_chars(key)
            + "' exceeds maximum length "@ + dec_digits(limit),
        PayloadErrV::ValueTooLarge { key, limit } => "metadata value for '"@ + key_chars(key)
            + "' exceeds "@ + dec_digits(limit) + " bytes"@,
        PayloadErrV::TooManyFields { limit } => "payload exceeds the maximum of "@ + dec_digits(
            limit,
        ) + " metadata fields"@,
        PayloadErrV::InvalidAccountId(reason) => "account id is invalid: "@ + reason,
        PayloadErrV::InvalidCustomKey(reason) => "custom key is invalid: "@ + reason,
        PayloadErrV::InvalidTimestamp(reason) => "timestamp is invalid: "@ + reason,
    }
}

impl PayloadError {
    /// Renders the error for logs and messages.
    pub fn message(&self) -> (r: String)
        ensures
            r@ == payload_error_message(self@),
    {
        match self {
            PayloadError::EmptyKey => "metadata keys cannot be empty".to_owned(),
            PayloadError::KeyTooLong { key, limit } => {
                let mut s = "metadata key '".to_owned();
                s.append(key.as_str());
                s.append("' exceeds maximum length ");
                let digits = usize_to_string(*limit);
                s.append(digits.as_str());
                s
            },
            PayloadError::ValueTooLarge { key, limit } => {
                let mut s = "metadata value for '".to_owned();
                s.append(key.as_str());
                s.append("' exceeds ");
                let digits = usize_to_string(*limit);
                s.append(digits.as_str());
                s.append(" bytes");
                s
            },
            PayloadError::TooManyFields { limit } => {
                let mut s = "payload exceeds the maximum of ".to_owned();
                let digits = usize_to_string(*limit);
                s.append(digits.as_str());
                s.append(" metadata fields");
                s
            },
            PayloadError::InvalidAccountId(reason) => {
                let mut s = "account id is invalid: ".to_owned();
                s.append(reason);
                s
            },
            PayloadError::InvalidCustomKey(reason) => {
                let mut s = "custom key is invalid: ".to_owned();
                s.append(reason);
                s
            },
            PayloadError::InvalidTimestamp(reason) => {
                let mut s = "timestamp is invalid: ".to_owned();
                s.append(reason);
                s
            },
        }
    }
}

} // verus!
