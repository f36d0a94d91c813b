[package]
name = "wassel"
version = "0.1.0"
edition = "2021"
publish = false

[dependencies]
matchit = "=0.8.6"
subst = "=0.3.8"
wasmtime = { version = "=48.0.8", default-features = false, features = ["std", "runtime", "component-model"] }
reqwest = { version = "=0.12.28", default-features = false, features = ["stream"] }
http = "=1.5.0"
redis = { version = "=1.8.1", features = ["tokio-comp", "num-bigint"] }
tokio-postgres = "=0.7.18"
tokio = { version = "=1.54.1", features = ["full"] }
hyper = { version = "=1.12.0", features = ["full"] }
hyper-util = { version = "=0.1.21", features = ["full"] }
http-body-util = "=0.1.5"
bytes = "=1.12.1"
futures = "=0.3.34"
futures-util = "=0.3.34"
pin-project = "=1.1.13"
sync_wrapper = "=1.0.2"
serde = { version = "=1.0.229", features = ["derive"] }
serde_json = "=1.0.154"
toml = "=0.5.11"
clap = { version = "=4.6.7", features = ["derive"] }
dotenvy = "=0.15.7"
anyhow = "=1.0.104"
subprocess = "=1.2.3"
rayon = "=1.12.0"
tracing = "=0.1.44"
tracing-subscriber = { version = "=0.3.23", features = ["env-filter"] }
chrono = "=0.4.45"
sysinfo = "=0.40.1"
include_dir = "=0.7.4"
