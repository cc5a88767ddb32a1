[package]
name = "audio_config_manager"
version = "1.3.0"
edition = "2021"
publish = false

[dependencies]
chrono = { version = "0.4", default-features = false, features = ["clock"] }
serde = { version = "1", features = ["derive"] }
serde_json = "1"
window-vibrancy = "0.6"
