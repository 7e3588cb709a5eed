[package]
name = "cadmus"
version = "2.0.0"
edition = "2021"
publish = false

[dependencies]
ct2rs = { version = "0.9.18", default-features = false, features = ["whisper"] }
symphonia = { version = "0.5.4", features = ["mp3", "wav", "flac", "pcm", "mkv", "isomp4", "aac"] }
rubato = "0.16.2"
unsafe-libopus = "0.2.0"
ureq = { version = "3.3.0", features = ["platform-verifier"] }
napi = { version = "3", features = ["napi4"] }
napi-derive = "3"
