use earshot::model::{check_compute_type, context_params, cuda_backend_present, ContextParams};
use earshot::{ComputeType, Device, Error, ModelConfig};

#[test]
fn cpu_context_params_disable_gpu() {
    let cfg = ModelConfig::default().device(Device::Cpu);
    let params = context_params(&cfg, false).unwrap();
    assert!(!params.use_gpu);
    let params = context_params(&cfg, true).unwrap();
    assert!(!params.use_gpu);
}

#[test]
fn cuda_without_feature_errors() {
    let cfg = ModelConfig::default().device(Device::Cuda { device_id: 0 });
    for cuda_supported in [false, true] {
        let result = context_params(&cfg, cuda_supported);
        if cuda_supported {
            assert!(result.is_ok());
        } else {
            assert!(matches!(result, Err(Error::CudaUnavailable)));
        }
    }
}

#[test]
fn cuda_context_params_select_device_and_flash_attention() {
    let cfg = ModelConfig::default()
        .device(Device::Cuda { device_id: 2 })
        .compute_type(ComputeType::Float16);
    assert_eq!(
        context_params(&cfg, true).unwrap(),
        ContextParams {
            use_gpu: true,
            gpu_device: 2,
            flash_attn: true
        }
    );
    let cfg = cfg.compute_type(ComputeType::Int8);
    assert_eq!(
        context_params(&cfg, true).unwrap(),
        ContextParams {
            use_gpu: true,
            gpu_device: 2,
            flash_attn: false
        }
    );
}

#[test]
fn cpu_context_params_are_plain() {
    let cfg = ModelConfig::default().compute_type(ComputeType::Float16);
    assert_eq!(
        context_params(&cfg, true).unwrap(),
        ContextParams {
            use_gpu: false,
            gpu_device: 0,
            flash_attn: false
        }
    );
}

#[test]
fn compute_type_check_matches_model_ftype() {
    assert!(check_compute_type(ComputeType::Float32, 0).is_ok());
    assert!(check_compute_type(ComputeType::Float16, 1).is_ok());
    assert!(check_compute_type(ComputeType::Int8, 2).is_ok());
    assert!(check_compute_type(ComputeType::Int8, 8).is_ok());
    let err = check_compute_type(ComputeType::Int8, 1).unwrap_err();
    assert_eq!(
        err,
        Error::ComputeTypeMismatch {
            expected: ComputeType::Int8,
            actual_ftype: 1
        }
    );
    assert_eq!(
        err.to_string(),
        "model compute type mismatch: config=Int8, model_ftype=1"
    );
    assert!(check_compute_type(ComputeType::Float32, 1).is_err());
    assert!(check_compute_type(ComputeType::Float16, -1).is_err());
}

#[test]
fn cuda_backend_read_from_system_info() {
    assert!(cuda_backend_present(
        "WHISPER : COREML = 0 | OPENVINO = 0 | CUDA : ARCHS = 890 | USE_GRAPHS = 1 | CPU : SSE3 = 1 | "
    ));
    assert!(!cuda_backend_present(
        "WHISPER : COREML = 0 | OPENVINO = 0 | CPU : SSE3 = 1 | AVX = 1 | "
    ));
    assert!(!cuda_backend_present("ROCm : PEER_MAX_BATCH_SIZE = 128 | "));
    assert!(!cuda_backend_present(""));
}
