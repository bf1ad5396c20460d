[package]
name = "queued"
version = "0.1.0"
edition = "2021"
publish = false

[dependencies]
axum = "0.6"
blake3 = { version = "1", default-features = false, features = ["std", "pure"] }
chrono = { version = "0.4", default-features = false, features = ["clock", "std", "serde"] }
hex = "0.4"
off64 = "*"
rand = "0.8"
serde = { version = "1", features = ["derive"] }
tokio = { version = "1", features = ["rt-multi-thread", "macros", "sync"] }
