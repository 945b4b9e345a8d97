[package]
name = "earshot"
version = "0.1.0"
edition = "2021"
publish = false

[dependencies]
rubato = "0.16"
symphonia = { version = "0.5", features = ["mp3", "aac", "isomp4", "flac", "wav"] }
thiserror = "2"
whisper-rs = "0.15"
