//! Decisions made when a Whisper model is loaded: the backend context
//! parameters for a configuration, and the check of the loaded weights
//! against the configured compute type.

use vstd::prelude::*;

use crate::config::{ComputeType, Device, ModelConfig};
use crate::error::{Error, ErrorView, result_view};
use crate::text::{contains_text, has_infix};

verus! {

/// Whether the Whisper backend was built with CUDA, read from its system
/// information: a CUDA build registers the `CUDA` backend, which lists its
/// features there as `CUDA : ...`.
pub fn cuda_backend_present(system_info: &str) -> (b: bool)
    ensures
        b == has_infix(system_info@, "CUDA : "@),
{
    contains_text(system_info, "CUDA : ")
}

/// Context parameters handed to the Whisper backend.
#[derive(Debug, Clone, Copy, PartialEq, Eq, Structural)]
pub struct ContextParams {
    /// Run on the GPU.
    pub use_gpu: bool,
    /// GPU device index.
    pub gpu_device: i32,
    /// Use flash attention.
    pub flash_attn: bool,
}

/// The context parameters for `config` when the Whisper backend was
/// (`cuda_supported`) or was not built with CUDA: the CPU disables the GPU;
/// CUDA needs a CUDA build and selects the device; flash attention is used
/// exactly for `Float16` weights on CUDA.
pub open spec fn context_params_for(config: ModelConfig, cuda_supported: bool) -> Result<
    ContextParams,
    ErrorView,
> {
    match config.device {
        Device::Cpu => Ok(ContextParams { use_gpu: false, gpu_device: 0, flash_attn: false }),
        Device::Cuda { device_id } => if !cuda_supported {
            Err(ErrorView::CudaUnavailable)
        } else {
            Ok(
                ContextParams {
                    use_gpu: true,
                    gpu_device: device_id,
                    flash_attn: config.compute_type == ComputeType::Float16,
                },
            )
        },
    }
}

/// Builds the backend context parameters for `config`; `cuda_supported`
/// tells whether the Whisper backend was built with CUDA support.
///
/// Fails with [`Error::CudaUnavailable`] when CUDA is requested from a backend
/// built without it.
pub fn context_params(config: &ModelConfig, cuda_supported: bool) -> (r: Result<
    ContextParams,
    Error,
>)
    ensures
        result_view(r) == context_params_for(*config, cuda_supported),
{
    let mut params = ContextParams { use_gpu: false, gpu_device: 0, flash_attn: false };
    match config.device {
        Device::Cpu => {
            params.use_gpu = false;
            params.gpu_device = 0;
        },
        Device::Cuda { device_id } => {
            if !cuda_supported {
                return Err(Error::CudaUnavailable);
            }
            params.use_gpu = true;
            params.gpu_device = device_id;
        },
    }
    let is_cuda = match config.device {
        Device::Cuda { .. } => true,
        Device::Cpu => false,
    };
    let is_f16 = match config.compute_type {
        ComputeType::Float16 => true,
        _ => false,
    };
    params.flash_attn = is_f16 && is_cuda;
    Ok(params)
}

/// Whether GGML weights of type `model_ftype` are what `expected` asks for:
/// `Float32` is type 0, `Float16` type 1, and `Int8` any quantized type (2 or more).
pub open spec fn compute_type_matches(expected: ComputeType, model_ftype: i32) -> bool {
    match expected {
        ComputeType::Float32 => model_ftype == 0,
        ComputeType::Float16 => model_ftype == 1,
        ComputeType::Int8 => model_ftype >= 2,
    }
}

/// Checks the `model_ftype` that the loaded model reports against the
/// configured compute type.
pub fn check_compute_type(expected: ComputeType, model_ftype: i32) -> (r: Result<(), Error>)
    ensures
        result_view(r) == if compute_type_matches(expected, model_ftype) {
            Ok::<(), ErrorView>(())
        } else {
            Err(ErrorView::ComputeTypeMismatch { expected, actual_ftype: model_ftype })
        },
{
    let matches = match expected {
        ComputeType::Float32 => model_ftype == 0,
        ComputeType::Float16 => model_ftype == 1,
        ComputeType::Int8 => model_ftype >= 2,
    };
    if matches {
        Ok(())
    } else {
        Err(Error::ComputeTypeMismatch { expected, actual_ftype: model_ftype })
    }
}

/// Every quantized GGML weight type (2 and above) is accepted for `Int8`,
/// `Float32` accepts exactly type 0 and `Float16` exactly type 1; so each
/// non-negative weight type matches exactly one compute type.
pub proof fn lemma_compute_type_accepts(model_ftype: i32)
    ensures
        compute_type_matches(ComputeType::Int8, model_ftype) <==> model_ftype >= 2,
        compute_type_matches(ComputeType::Float32, model_ftype) <==> model_ftype == 0,
        compute_type_matches(ComputeType::Float16, model_ftype) <==> model_ftype == 1,
        model_ftype >= 0 ==> (compute_type_matches(ComputeType::Float32, model_ftype)
            || compute_type_matches(ComputeType::Float16, model_ftype) || compute_type_matches(
            ComputeType::Int8,
            model_ftype,
        )),
        forall|a: ComputeType, b: ComputeType|
            compute_type_matches(a, model_ftype) && compute_type_matches(b, model_ftype) ==> a
                == b,
{
}

} // verus!
