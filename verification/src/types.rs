//! Shared placeholder types for the signal-processing side of the pipeline.
//!
//! The embedding and detection stages that would carry payload bytes inside
//! an audio signal are outside this crate's scope; these types only reserve
//! their names in the public interface.

use vstd::prelude::*;

verus! {

/// Represents an abstract unit of audio handled by the pipeline.
pub struct AudioChunk;

/// Placeholder payload type embedded into audio.
pub struct WatermarkPayload;

/// Configuration placeholder for pre-vocoder embedding.
pub struct PreVocoderConfig;

} // verus!
