//! Encryption abstractions for payload frames.
//!
//! Cryptographic details stay abstract here: callers pick an
//! [`EncryptionMode`] at configuration time and supply strategy
//! implementations through the [`EncryptedHashStrategy`] trait when opting
//! into encrypted-hash protection.  The default mode applies no protection
//! and leaves payload bytes untouched.  Strategies are shared behind a
//! reference-counted handle so concurrent encoders can use one instance.

use vstd::prelude::*;
use vstd::string::StringExecFns;

use std::sync::Arc;

verus! {

/// Ghost view of an encryption-layer error.
pub enum EncErrV {
    UnsupportedMode(Seq<char>),
    InvalidConfiguration(Seq<char>),
    RejectedPayload(Seq<char>),
    CryptoFailure(Seq<char>),
}

/// Errors surfaced by encryption strategies when sealing or opening
/// payloads.  Strategies classify every failure into one of these.
#[derive(Debug, Clone)]
pub enum EncryptionError {
    /// Requested mode is not available (e.g., feature gate or missing key).
    UnsupportedMode(&'static str),
    /// Caller supplied an invalid configuration parameter.
    InvalidConfiguration(String),
    /// Strategy rejected the input payload (size, format, etc.).
    RejectedPayload(String),
    /// Underlying cryptographic operation failed.
    CryptoFailure(String),
}

impl View for EncryptionError {
    type V = EncErrV;

    open spec fn view(&self) -> EncErrV {
        match self {
            EncryptionError::UnsupportedMode(m) => EncErrV::UnsupportedMode(m.view()),
            EncryptionError::InvalidConfiguration(m) => EncErrV::InvalidConfiguration(m@),
            EncryptionError::RejectedPayload(m) => EncErrV::RejectedPayload(m@),
            EncryptionError::CryptoFailure(m) => EncErrV::CryptoFailure(m@),
        }
    }
}

impl PartialEq for EncryptionError {
    fn eq(&self, other: &EncryptionError) -> (r: bool) {
        match (self, other) {
            (EncryptionError::UnsupportedMode(a), EncryptionError::UnsupportedMode(b)) => crate::format::util::str_eq(
                a,
                b,
            ),
            (
                EncryptionError::InvalidConfiguration(a),
                EncryptionError::InvalidConfiguration(b),
            ) => *a == *b,
            (EncryptionError::RejectedPayload(a), EncryptionError::RejectedPayload(b)) => *a == *b,
            (EncryptionError::CryptoFailure(a), EncryptionError::CryptoFailure(b)) => *a == *b,
            _ => false,
        }
    }
}

impl vstd::std_specs::cmp::PartialEqSpecImpl for EncryptionError {
    open spec fn obeys_eq_spec() -> bool {
        true
    }

    open spec fn eq_spec(&self, other: &EncryptionError) -> bool {
        self@ == other@
    }
}

/// Runtime context passed to encryption strategies.
#[derive(Debug, Clone)]
pub struct EncryptionContext {
    /// Optional channel identifier (e.g., stream session) for domain
    /// separation.
    pub channel_id: Option<String>,
    /// Additional authenticated data binding the ciphertext to higher-level
    /// state.
    pub associated_data: Option<Vec<u8>>,
}

impl Default for EncryptionContext {
    /// An empty context: no channel identifier, no associated data.
    fn default() -> (r: Self)
        ensures
            r.channel_id is None,
            r.associated_data is None,
    {
        EncryptionContext { channel_id: None, associated_data: None }
    }
}

/// Result returned after sealing payload bytes.
#[derive(Debug, Clone, Eq)]
pub struct EncryptionArtifacts {
    /// Bytes transported in place of the plaintext payload.
    pub sealed_payload: Vec<u8>,
    /// Detached authentication tag or digest, when the strategy produces
    /// one.
    pub tag: Option<Vec<u8>>,
    /// Strategy-specific metadata that consumers might need to persist.
    pub metadata: Option<Vec<u8>>,
}

/// Ghost view of an optional byte buffer.
pub open spec fn opt_bytes(o: Option<Vec<u8>>) -> Option<Seq<u8>> {
    match o {
        Some(v) => Some(v@),
        None => None,
    }
}

impl PartialEq for EncryptionArtifacts {
    fn eq(&self, other: &EncryptionArtifacts) -> (r: bool) {
        if !crate::format::util::bytes_eq(self.sealed_payload.as_slice(), other.sealed_payload.as_slice()) {
            return false;
        }
        let tags = match (&self.tag, &other.tag) {
            (Some(a), Some(b)) => crate::format::util::bytes_eq(a.as_slice(), b.as_slice()),
            (None, None) => true,
            _ => false,
        };
        if !tags {
            return false;
        }
        match (&self.metadata, &other.metadata) {
            (Some(a), Some(b)) => crate::format::util::bytes_eq(a.as_slice(), b.as_slice()),
            (None, None) => true,
            _ => false,
        }
    }
}

impl vstd::std_specs::cmp::PartialEqSpecImpl for EncryptionArtifacts {
    open spec fn obeys_eq_spec() -> bool {
        true
    }

    open spec fn eq_spec(&self, other: &EncryptionArtifacts) -> bool {
        self.sealed_payload@ == other.sealed_payload@ && opt_bytes(self.tag) == opt_bytes(other.tag)
            && opt_bytes(self.metadata) == opt_bytes(other.metadata)
    }
}

impl EncryptionArtifacts {
    /// Helper for producing artifacts when no encryption takes place.
    pub fn passthrough(payload: Vec<u8>) -> (r: Self)
        ensures
            r.sealed_payload@ == payload@,
            r.tag is None,
            r.metadata is None,
    {
        EncryptionArtifacts { sealed_payload: payload, tag: None, metadata: None }
    }
}

/// Capability implemented by encryption providers registered with the
/// format layer: `seal` applies the provider's protection to a payload and
/// `open` reverses it, verifying any tags.  What a provider returns is its
/// own affair; the codec states only what it does with the result.
pub trait PayloadEncryption {
    /// Applies the provider's protection to `payload`, returning sealed
    /// bytes and auxiliary artifacts.
    fn seal(&self, payload: &[u8], context: &EncryptionContext) -> Result<
        EncryptionArtifacts,
        EncryptionError,
    >;

    /// Reverses `seal`, verifying tags and recovering the original payload.
    fn open(&self, sealed: &[u8], artifacts: &EncryptionArtifacts, context: &EncryptionContext) -> Result<
        Vec<u8>,
        EncryptionError,
    >;

    /// Human-readable identifier for logging and debugging purposes.
    fn scheme_name(&self) -> &'static str;
}

/// The capability a provider registers for the encrypted-hash mode: the
/// same seal/open pair as [`PayloadEncryption`], shareable across threads.
/// The format layer holds implementations in an [`Arc`], so one instance
/// may serve concurrent encoders.
pub trait EncryptedHashStrategy: Send + Sync {
    /// Applies the provider's protection to `payload`, returning sealed
    /// bytes and auxiliary artifacts.
    fn seal(&self, payload: &[u8], context: &EncryptionContext) -> Result<
        EncryptionArtifacts,
        EncryptionError,
    >;

    /// Reverses `seal`, verifying tags and recovering the original payload.
    fn open(&self, sealed: &[u8], artifacts: &EncryptionArtifacts, context: &EncryptionContext) -> Result<
        Vec<u8>,
        EncryptionError,
    >;

    /// Identifier describing the hashing/encryption construction.
    fn algorithm_id(&self) -> &'static str;
}

/// Default payload encryption provider covering the unprotected mode: the
/// payload passes through unchanged in both directions.
#[derive(Debug, Default)]
pub struct NoEncryption;

impl PayloadEncryption for NoEncryption {
    fn seal(&self, payload: &[u8], context: &EncryptionContext) -> (r: Result<
        EncryptionArtifacts,
        EncryptionError,
    >)
        ensures
            r matches Ok(a) && a.sealed_payload@ == payload@ && a.tag is None && a.metadata
                is None,
    {
        Ok(EncryptionArtifacts::passthrough(vstd::slice::slice_to_vec(payload)))
    }

    fn open(&self, sealed: &[u8], artifacts: &EncryptionArtifacts, context: &EncryptionContext) -> (r: Result<
        Vec<u8>,
        EncryptionError,
    >)
        ensures
            r matches Ok(p) && p@ == sealed@,
    {
        Ok(vstd::slice::slice_to_vec(sealed))
    }

    fn scheme_name(&self) -> (r: &'static str) {
        "none"
    }
}

/// Configuration for the encrypted-hash mode.
pub struct EncryptedHashConfig {
    /// Strategy responsible for hashing, key usage, and encryption steps.
    pub strategy: Arc<dyn EncryptedHashStrategy>,
    /// Optional identifier for the key material used by the strategy.
    pub key_id: Option<String>,
    /// Optional nonce/IV if the strategy requires caller-provided
    /// randomness.
    pub nonce: Option<Vec<u8>>,
}

impl Clone for EncryptedHashConfig {
    /// Relies on `Arc::clone`: the copy shares the same strategy handle,
    /// and the key identifier and nonce are cloned value-for-value.
    #[verifier::external_body]
    fn clone(&self) -> (r: Self)
        ensures
            r.key_id == self.key_id,
            r.nonce == self.nonce,
    {
        EncryptedHashConfig {
            strategy: Arc::clone(&self.strategy),
            key_id: self.key_id.clone(),
            nonce: self.nonce.clone(),
        }
    }
}

/// High-level encryption selector used by the format layer.
#[derive(Clone)]
pub enum EncryptionMode {
    /// No encryption or hashing is applied; plaintext payload flows
    /// through.
    Plain,
    /// Wrap payload bytes using a user-supplied encrypted hash strategy.
    EncryptedHash(EncryptedHashConfig),
}

impl EncryptionMode {
    /// Returns `true` when payload bytes will remain unprotected.
    pub fn is_none(&self) -> (r: bool)
        ensures
            r == (self is Plain),
    {
        matches!(self, EncryptionMode::Plain)
    }

    /// Returns `true` when payload bytes require an encrypted-hash
    /// transform.
    pub fn is_encrypted_hash(&self) -> (r: bool)
        ensures
            r == (self is EncryptedHash),
    {
        matches!(self, EncryptionMode::EncryptedHash(_))
    }
}

/// The human-readable description of an encryption error.
pub open spec fn encryption_error_message(e: EncErrV) -> Seq<char> {
    match e {
        EncErrV::UnsupportedMode(mode) => "encryption mode '"@ + mode + "' is not supported"@,
        EncErrV::InvalidConfiguration(reason) => "invalid encryption configuration: "@ + reason,
        EncErrV::RejectedPayload(reason) => "payload rejected by encryption strategy: "@ + reason,
        EncErrV::CryptoFailure(reason) => "cryptographic operation failed: "@ + reason,
    }
}

impl EncryptionError {
    /// Renders the error for logs and messages.
    pub fn message(&self) -> (r: String)
        ensures
            r@ == encryption_error_message(self@),
    {
        match self {
            EncryptionError::UnsupportedMode(mode) => {
                let mut s = "encryption mode '".to_owned();
                s.append(mode);
                s.append("' is not supported");
                s
            },
            EncryptionError::InvalidConfiguration(reason) => {
                let mut s = "invalid encryption configuration: ".to_owned();
                s.append(reason.as_str());
                s
            },
            EncryptionError::RejectedPayload(reason) => {
                let mut s = "payload rejected by encryption strategy: ".to_owned();
                s.append(reason.as_str());
                s
            },
            EncryptionError::CryptoFailure(reason) => {
                let mut s = "cryptographic operation failed: ".to_owned();
                s.append(reason.as_str());
                s
            },
        }
    }
}

} // verus!
