[package]
name = "static_api"
version = "0.1.0"
edition = "2021"
publish = false

[dependencies]
clap = "=4.6.7"
dirs = "=7.0.0"
rand = "=0.8.8"
salvo = { version = "=1.0.1", default-features = false, features = ["affix-state", "cors", "http1", "server"] }
serde_json = "=1.0.154"
thiserror = "=1.0.69"
tokio = { version = "=1.54.1", features = ["full"] }
tracing-subscriber = "=0.3.23"
