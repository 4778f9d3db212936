//! Structured-metadata payload format for embedding in a carrier signal.
//!
//! The crate models small key/value metadata records, validates them against
//! size constraints while a payload is assembled, serializes a validated
//! frame into a compact binary layout, and wraps the serialized bytes in a
//! plain or sealed envelope chosen by a pluggable encryption strategy.

pub mod format;
pub mod types;
