//! Error types returned by earshot operations.

use vstd::prelude::*;

use crate::config::ComputeType;
use crate::text::{decimal, push_decimal, push_signed_decimal, signed_decimal};

verus! {

/// Errors that can occur while loading models or transcribing audio.
#[derive(Debug, Clone, PartialEq, Eq)]
pub enum Error {
    /// The audio file could not be opened or read.
    AudioIo {
        /// Path that failed to open.
        path: String,
        /// What the operating system reported.
        message: String,
    },
    /// The audio container or codec is unsupported or corrupt.
    AudioDecode(String),
    /// The demuxer requested a bitstream reset that this decoder does not support.
    ///
    /// Decoder-level resets are recovered from, but format-level resets
    /// (re-probe track list / recreate demuxer state) are rejected as hard errors.
    UnsupportedBitstreamReset,
    /// The decoded audio exceeds the configured maximum duration.
    AudioTooLong {
        /// Maximum allowed duration in seconds.
        max_secs: u64,
    },
    /// No decodable audio track was found in the file.
    NoAudioTrack {
        /// Path that lacked an audio track.
        path: String,
    },
    /// The Whisper model file could not be loaded.
    ModelLoad {
        /// Path to the model file.
        path: String,
        /// Backend error message.
        message: String,
    },
    /// The loaded model weights do not match the configured [`ComputeType`].
    ComputeTypeMismatch {
        /// Compute type requested in configuration.
        expected: ComputeType,
        /// GGML `model_ftype` reported by the loaded model.
        actual_ftype: i32,
    },
    /// Transcription failed inside the Whisper backend.
    Transcription(String),
    /// CUDA was requested but the Whisper backend was built without CUDA support.
    CudaUnavailable,
    /// A configuration value was invalid.
    InvalidConfig(String),
}

/// Convenient result alias for earshot APIs.
pub type Result<T> = core::result::Result<T, Error>;

/// An [`Error`] with its texts as character sequences.
pub enum ErrorView {
    AudioIo { path: Seq<char>, message: Seq<char> },
    AudioDecode(Seq<char>),
    UnsupportedBitstreamReset,
    AudioTooLong { max_secs: u64 },
    NoAudioTrack { path: Seq<char> },
    ModelLoad { path: Seq<char>, message: Seq<char> },
    ComputeTypeMismatch { expected: ComputeType, actual_ftype: i32 },
    Transcription(Seq<char>),
    CudaUnavailable,
    InvalidConfig(Seq<char>),
}

impl View for Error {
    type V = ErrorView;

    open spec fn view(&self) -> ErrorView {
        match self {
            Error::AudioIo { path, message } => ErrorView::AudioIo {
                path: path@,
                message: message@,
            },
            Error::AudioDecode(m) => ErrorView::AudioDecode(m@),
            Error::UnsupportedBitstreamReset => ErrorView::UnsupportedBitstreamReset,
            Error::AudioTooLong { max_secs } => ErrorView::AudioTooLong { max_secs: *max_secs },
            Error::NoAudioTrack { path } => ErrorView::NoAudioTrack { path: path@ },
            Error::ModelLoad { path, message } => ErrorView::ModelLoad {
                path: path@,
                message: message@,
            },
            Error::ComputeTypeMismatch { expected, actual_ftype } =>
                ErrorView::ComputeTypeMismatch { expected: *expected, actual_ftype: *actual_ftype },
            Error::Transcription(m) => ErrorView::Transcription(m@),
            Error::CudaUnavailable => ErrorView::CudaUnavailable,
            Error::InvalidConfig(m) => ErrorView::InvalidConfig(m@),
        }
    }
}

/// The view of a result whose success value carries no text.
pub open spec fn result_view<T>(r: core::result::Result<T, Error>) -> core::result::Result<T, ErrorView> {
    match r {
        Ok(v) => Ok(v),
        Err(e) => Err(e@),
    }
}

/// The name of a compute type as `{:?}` prints it.
pub open spec fn compute_type_name(c: ComputeType) -> Seq<char> {
    match c {
        ComputeType::Float32 => "Float32"@,
        ComputeType::Float16 => "Float16"@,
        ComputeType::Int8 => "Int8"@,
    }
}

/// The message that an error displays.
pub open spec fn display(e: ErrorView) -> Seq<char> {
    match e {
        ErrorView::AudioIo { path, message } => "failed to open audio file `"@ + path + "`: "@
            + message,
        ErrorView::AudioDecode(m) => "failed to decode audio: "@ + m,
        ErrorView::UnsupportedBitstreamReset => "bitstream reset is not supported"@,
        ErrorView::AudioTooLong { max_secs } => "audio longer than "@ + decimal(max_secs as nat)
            + " seconds is not supported"@,
        ErrorView::NoAudioTrack { path } => "no audio track found in `"@ + path + "`"@,
        ErrorView::ModelLoad { path, message } => "failed to load model `"@ + path + "`: "@
            + message,
        ErrorView::ComputeTypeMismatch { expected, actual_ftype } =>
            "model compute type mismatch: config="@ + compute_type_name(expected)
            + ", model_ftype="@ + signed_decimal(actual_ftype as int),
        ErrorView::Transcription(m) => "transcription failed: "@ + m,
        ErrorView::CudaUnavailable => "CUDA support requires building with the `cuda` feature"@,
        ErrorView::InvalidConfig(m) => "invalid configuration: "@ + m,
    }
}

fn compute_type_str(c: ComputeType) -> (s: &'static str)
    ensures
        s@ == compute_type_name(c),
{
    match c {
        ComputeType::Float32 => "Float32",
        ComputeType::Float16 => "Float16",
        ComputeType::Int8 => "Int8",
    }
}

impl Error {
    /// The human-readable message of this error.
    pub fn to_string(&self) -> (s: String)
        ensures
            s@ == display(self@),
    {
        match self {
            Error::AudioIo { path, message } => {
                let mut s = String::from_str("failed to open audio file `");
                s.append(path.as_str());
                s.append("`: ");
                s.append(message.as_str());
                s
            },
            Error::AudioDecode(m) => {
                let mut s = String::from_str("failed to decode audio: ");
                s.append(m.as_str());
                s
            },
            Error::UnsupportedBitstreamReset => String::from_str("bitstream reset is not supported"),
            Error::AudioTooLong { max_secs } => {
                let mut s = String::from_str("audio longer than ");
                push_decimal(&mut s, *max_secs);
                s.append(" seconds is not supported");
                s
            },
            Error::NoAudioTrack { path } => {
                let mut s = String::from_str("no audio track found in `");
                s.append(path.as_str());
                s.append("`");
                s
            },
            Error::ModelLoad { path, message } => {
                let mut s = String::from_str("failed to load model `");
                s.append(path.as_str());
                s.append("`: ");
                s.append(message.as_str());
                s
            },
            Error::ComputeTypeMismatch { expected, actual_ftype } => {
                let mut s = String::from_str("model compute type mismatch: config=");
                s.append(compute_type_str(*expected));
                s.append(", model_ftype=");
                push_signed_decimal(&mut s, *actual_ftype as i64);
                s
            },
            Error::Transcription(m) => {
                let mut s = String::from_str("transcription failed: ");
                s.append(m.as_str());
                s
            },
            Error::CudaUnavailable => String::from_str(
                "CUDA support requires building with the `cuda` feature",
            ),
            Error::InvalidConfig(m) => {
                let mut s = String::from_str("invalid configuration: ");
                s.append(m.as_str());
                s
            },
        }
    }
}

} // verus!
