[package]
name = "pack_pipeline"
version = "0.1.0"
edition = "2021"
publish = false

[dependencies]
rhythm-open-exchange = "*"
reqwest = { version = "*", default-features = false }
serde = { version = "1", features = ["derive"] }
serde_json = "1"
tokio = { version = "1", features = ["fs", "io-util"] }
zip = { version = "*", default-features = false, features = ["deflate"] }
tauri = { version = "2", default-features = false }
