[package]
name = "pg_event_server"
version = "0.1.0"
edition = "2021"
publish = false

[dependencies]
actix-web = { version = "4", features = ["rustls-0_23"] }
actix-web-lab = "*"
clap = { version = "4", features = ["derive"] }
config = { version = "*", default-features = false, features = ["toml"] }
env_logger = "*"
futures = "0.3"
glob = "0.3"
log = "0.4"
num_cpus = "1"
rust-ini = "*"
rustls = "0.23"
rustls-native-certs = "*"
rustls-pki-types = "1"
serde = { version = "1", features = ["derive"] }
thiserror = "*"
tokio = { version = "1", features = ["rt-multi-thread", "sync", "macros", "time", "net"] }
tokio-postgres = "0.7"
tokio-postgres-rustls = "*"
toml = "*"
uuid = { version = "1", features = ["v4"] }
