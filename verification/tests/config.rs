use earshot::config::num_cpus_hint;
use earshot::{ComputeType, Device, ModelConfig, TranscribeConfig};

#[test]
fn model_config_builder() {
    let cfg = ModelConfig::default()
        .device(Device::Cuda { device_id: 0 })
        .compute_type(ComputeType::Float16);
    assert_eq!(cfg.device, Device::Cuda { device_id: 0 });
    assert_eq!(cfg.compute_type, ComputeType::Float16);
}

#[test]
fn transcribe_config_defaults_to_auto_language() {
    let cfg = TranscribeConfig::default();
    assert!(cfg.language.is_none());
    assert!(cfg.n_threads >= 1);
}

#[test]
fn model_config_defaults_to_cpu_int8() {
    let cfg = ModelConfig::default();
    assert_eq!(cfg.device, Device::Cpu);
    assert_eq!(cfg.compute_type, ComputeType::Int8);
    assert_eq!(Device::default(), Device::Cpu);
    assert_eq!(ComputeType::default(), ComputeType::Int8);
}

#[test]
fn builders_keep_other_fields() {
    let cfg = ModelConfig::default().compute_type(ComputeType::Float32);
    assert_eq!(cfg.device, Device::Cpu);
    let cfg = cfg.device(Device::Cuda { device_id: 3 });
    assert_eq!(cfg.compute_type, ComputeType::Float32);
    assert_eq!(cfg.device, Device::Cuda { device_id: 3 });
}

#[test]
fn transcribe_config_language_round_trip() {
    let cfg = TranscribeConfig::default().n_threads(3).language("en");
    assert_eq!(cfg.language.as_deref(), Some("en"));
    assert_eq!(cfg.n_threads, 3);
    let cfg = cfg.detect_language();
    assert!(cfg.language.is_none());
    assert_eq!(cfg.n_threads, 3);
    let cfg = TranscribeConfig::default().language("fr").n_threads(2);
    assert_eq!(cfg.language.as_deref(), Some("fr"));
    assert_eq!(cfg.n_threads, 2);
}

#[test]
fn thread_hint_clamps_to_one_through_eight() {
    assert_eq!(num_cpus_hint(None), 4);
    assert_eq!(num_cpus_hint(Some(1)), 1);
    assert_eq!(num_cpus_hint(Some(6)), 6);
    assert_eq!(num_cpus_hint(Some(64)), 8);
    assert_eq!(num_cpus_hint(Some(usize::MAX)), 1);
    assert_eq!(TranscribeConfig::default().n_threads, 4);
    assert_eq!(TranscribeConfig::for_parallelism(Some(2)).n_threads, 2);
    assert!(TranscribeConfig::for_parallelism(Some(2)).language.is_none());
}
