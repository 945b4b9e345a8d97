//! Configuration for model loading and transcription.

use vstd::prelude::*;

verus! {

/// Hardware device used for Whisper inference.
#[derive(Debug, Clone, Copy, PartialEq, Eq, Structural)]
pub enum Device {
    /// Run on the CPU (default).
    Cpu,
    /// Run on an NVIDIA GPU via CUDA.
    ///
    /// Loading a model on this device needs a Whisper backend built with CUDA
    /// support (whisper-rs's `cuda` feature).
    Cuda {
        /// Zero-based CUDA device index.
        device_id: i32,
    },
}

impl Default for Device {
    fn default() -> (d: Self)
        ensures
            d == Device::Cpu,
    {
        Device::Cpu
    }
}

/// Expected GGML weight format validated when the model is loaded.
///
/// Whisper.cpp stores precision/quantization in the model file; the loaded
/// `model_ftype` is checked against this value (see
/// [`crate::model::check_compute_type`]).
///
/// [`ComputeType::Int8`] means a quantized GGML weight file (Q4/Q5/Q8/etc.),
/// not a runtime cast of an F16/F32 model.
#[derive(Debug, Clone, Copy, PartialEq, Eq, Structural)]
pub enum ComputeType {
    /// Full 32-bit floating point weights (`model_ftype` 0).
    Float32,
    /// 16-bit floating point weights (`model_ftype` 1).
    Float16,
    /// Quantized GGML weights such as Q4/Q5/Q8 (`model_ftype` >= 2).
    Int8,
}

impl Default for ComputeType {
    fn default() -> (c: Self)
        ensures
            c == ComputeType::Int8,
    {
        ComputeType::Int8
    }
}

/// Options applied when loading a Whisper model.
#[derive(Debug, Clone, Copy, PartialEq, Eq, Structural)]
pub struct ModelConfig {
    /// Device used for inference.
    pub device: Device,
    /// Expected model precision / quantization.
    pub compute_type: ComputeType,
}

impl Default for ModelConfig {
    fn default() -> (c: Self)
        ensures
            c == (ModelConfig { device: Device::Cpu, compute_type: ComputeType::Int8 }),
    {
        ModelConfig { device: Device::Cpu, compute_type: ComputeType::Int8 }
    }
}

impl ModelConfig {
    /// Sets the inference device.
    pub fn device(self, device: Device) -> (c: Self)
        ensures
            c == (ModelConfig { device, compute_type: self.compute_type }),
    {
        ModelConfig { device, compute_type: self.compute_type }
    }

    /// Sets the expected compute / quantization type.
    pub fn compute_type(self, compute_type: ComputeType) -> (c: Self)
        ensures
            c == (ModelConfig { device: self.device, compute_type }),
    {
        ModelConfig { device: self.device, compute_type }
    }
}

/// The thread count chosen from the machine's available parallelism:
/// the count (truncated to `i32`) clamped to `1..=8`, or 4 when unknown.
pub open spec fn thread_hint(available: Option<usize>) -> i32 {
    let n: i32 = match available {
        Some(n) => n as i32,
        None => 4i32,
    };
    if n < 1 {
        1i32
    } else if n > 8 {
        8i32
    } else {
        n
    }
}

/// Picks a CPU thread count from the available parallelism that the host
/// reported (`None` when it could not tell).
pub fn num_cpus_hint(available: Option<usize>) -> (n: i32)
    ensures
        n == thread_hint(available),
        1 <= n <= 8,
{
    let n: i32 = match available {
        Some(count) => count as i32,
        None => 4,
    };
    if n < 1 {
        1
    } else if n > 8 {
        8
    } else {
        n
    }
}

/// Options applied to a single transcription request.
#[derive(Debug, Clone, PartialEq, Eq)]
pub struct TranscribeConfig {
    /// Forced language code, or `None` to auto-detect then transcribe.
    pub language: Option<String>,
    /// Number of threads used for CPU inference.
    pub n_threads: i32,
}

/// The language setting of a transcription request as a character sequence.
pub open spec fn language_view(language: Option<String>) -> Option<Seq<char>> {
    match language {
        Some(l) => Some(l@),
        None => None,
    }
}

impl Default for TranscribeConfig {
    /// Auto-detected language and the thread count for an unknown amount of
    /// parallelism; [`TranscribeConfig::for_parallelism`] takes the host's count.
    fn default() -> (c: Self)
        ensures
            c.language is None,
            c.n_threads == thread_hint(None),
    {
        TranscribeConfig::for_parallelism(None)
    }
}

impl TranscribeConfig {
    /// Auto-detected language and a thread count derived from the available
    /// parallelism that the host reported.
    pub fn for_parallelism(available: Option<usize>) -> (c: Self)
        ensures
            c.language is None,
            c.n_threads == thread_hint(available),
    {
        TranscribeConfig { language: None, n_threads: num_cpus_hint(available) }
    }

    /// Forces transcription in the given language code (for example `"en"`).
    pub fn language(self, language: &str) -> (c: Self)
        ensures
            language_view(c.language) == Some(language@),
            c.n_threads == self.n_threads,
    {
        TranscribeConfig { language: Some(language.to_owned()), n_threads: self.n_threads }
    }

    /// Enables automatic language detection before transcription.
    pub fn detect_language(self) -> (c: Self)
        ensures
            c.language is None,
            c.n_threads == self.n_threads,
    {
        TranscribeConfig { language: None, n_threads: self.n_threads }
    }

    /// Sets the CPU thread count used during inference.
    pub fn n_threads(self, n_threads: i32) -> (c: Self)
        ensures
            language_view(c.language) == language_view(self.language),
            c.n_threads == n_threads,
    {
        TranscribeConfig { language: self.language, n_threads }
    }
}

} // verus!
