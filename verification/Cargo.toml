[package]
name = "saas_starter"
version = "0.1.0"
edition = "2021"
publish = false

[dependencies]
chrono = { version = "0.4", default-features = false, features = ["std"] }
chrono-tz = { version = "0.10", default-features = false, features = ["std"] }
nix = { version = "0.29", default-features = false, features = ["signal"] }
axum = { version = "0.8", default-features = false }
tower_governor = { version = "0.7", default-features = false, features = ["axum"] }
tokio = { version = "1", default-features = false, features = ["rt", "time"] }
serde = { version = "1", features = ["derive"] }
serde_json = "1"
tracing = { version = "0.1", default-features = false }
async-trait = "0.1"
