[package]
name = "rsntp"
version = "0.1.0"
edition = "2021"
publish = false

[dependencies]
prometheus = { version = "0.13", default-features = false }
prometheus-client = "0.22"
moka = { version = "0.12", features = ["sync"] }
sysinfo = "0.30"
rustc_version_runtime = "0.3"
tiny_http = "0.12"
hyper = { version = "0.14", features = ["full"] }
tokio = { version = "1", features = ["rt-multi-thread"] }
