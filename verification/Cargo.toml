[package]
name = "tts_pipeline"
version = "0.1.0"
edition = "2021"
publish = false

[dependencies]
unicode-segmentation = "*"
chrono = "*"
axum = "*"
tokio = { version = "*", features = ["macros", "rt-multi-thread", "fs"] }
futures = "*"
serde = { version = "*", features = ["derive"] }
serde_json = "*"
reqwest = { version = "*", default-features = false, features = ["json"] }
tower-http = { version = "*", features = ["cors", "fs"] }
