# earshot

Whisper speech-to-text, with the library's logic verified by Verus.

- `src/` is the verified library: configuration (`config`), the decisions of
  the audio pipeline (`audio`: track selection, packet filtering, channel
  bookkeeping, the duration cap, resampling lengths), request validation and
  segment collection (`engine`), model-loading decisions (`model`), transcript
  assembly (`types`), text helpers (`text`) and the error type (`error`).
- `app/` holds what runs around it: reading and decoding files with Symphonia,
  resampling with rubato, and inference with whisper-rs, whose floating-point
  PCM and native bindings stay outside the verified code.
- `tests/` exercises the library on concrete values.

## GPU

`Device::Cuda` is accepted when whisper-rs is built with its `cuda` feature:
the project that depends on this crate enables it on whisper-rs, for example
`whisper-rs = { version = "0.15", features = ["cuda"] }`. Model loading reads
whisper-rs's system information, where a CUDA build lists its `CUDA` backend
(`model::cuda_backend_present`), and hands the answer to
`model::context_params`; without it, a CUDA request fails with
`Error::CudaUnavailable`.

## Threads

`TranscribeConfig::default()` uses 4 threads, the count for unknown
parallelism; `default_transcribe_config()` in `app/` asks the machine and
passes its answer to `TranscribeConfig::for_parallelism`.
