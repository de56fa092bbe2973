[package]
name = "burl"
version = "0.1.0"
edition = "2021"
publish = false

[dependencies]
rand = "=0.8.5"
rand_chacha = "=0.3.1"
reqwest = { version = "0.11", default-features = false, features = ["json", "rustls-tls"] }
tokio = { version = "1", features = ["macros", "rt-multi-thread", "time"] }
serde = { version = "1", features = ["derive"] }
serde_json = "1"
toml = "0.8"
chrono = "0.4"
log = "0.4"
env_logger = "0.10"
clap = { version = "4", features = ["derive"] }
plotly = "0.8"
statrs = "0.16"
thiserror = "1"
