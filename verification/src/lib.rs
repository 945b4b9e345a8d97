//! Fast Whisper speech-to-text: configuration, the decisions of the audio
//! pipeline (track selection, packet filtering, channel bookkeeping, the
//! duration cap, resampling lengths), request validation, the checked
//! collection of timed segments, and transcript assembly, each with its
//! behaviour stated and proved.
//!
//! Model files are a native-code trust boundary: only load GGML weights from
//! sources you trust.

pub mod audio;
pub mod config;
pub mod engine;
pub mod error;
pub mod model;
pub mod text;
pub mod types;

pub use audio::{MAX_AUDIO_DURATION_SECS, SymphoniaDecoder, WHISPER_SAMPLE_RATE};
pub use config::{ComputeType, Device, ModelConfig, TranscribeConfig};
pub use error::{Error, Result};
