[package]
name = "aicli"
version = "0.1.0"
edition = "2021"
publish = false

[dependencies]
bs58 = { version = "=0.5.1", features = ["check"] }
ed25519-dalek = { version = "=2.2.0", features = ["rand_core"] }
rand = "=0.8.8"
uuid = { version = "=1.29.0", features = ["v4", "serde"] }
chrono = { version = "=0.4.45", features = ["serde"] }
serde = { version = "=1.0.229", features = ["derive"] }
serde_json = "=1.0.154"
serde_yaml = "=0.9.34"
tokio = { version = "=1.54.1", features = ["full"] }
clap = { version = "=4.6.7", features = ["derive"] }
thiserror = "=1.0.69"
log = "=0.4.34"
env_logger = "=0.11.11"
async-trait = "=0.1.92"
once_cell = "=1.21.4"
sqlx = { version = "=0.7.4", default-features = false, features = ["sqlite", "runtime-tokio"] }
reqwest = { version = "=0.12.28", default-features = false, features = ["json", "rustls-tls"] }
rustls = { version = "=0.21.12", features = ["dangerous_configuration"] }
tokio-rustls = { version = "=0.24.1", features = ["dangerous_configuration"] }
rustls-pemfile = "=1.0.4"
rcgen = "=0.13.2"
