[package]
name = "harness"
version = "0.1.0"
edition = "2021"
publish = false

[dependencies]
wapc = "=2.2.0"
wasmtime-provider = { version = "=2.23.0", default-features = false }
wasmtime = { version = "=47.0.4", default-features = false }
candid = "=0.10.39"
serde = { version = "=1.0.229", features = ["derive"] }
serde_json = "=1.0.154"
anyhow = "=1.0.104"
thiserror = "=2.0.21"
tokio = { version = "=1.54.1", features = ["net", "io-util", "rt-multi-thread", "macros", "sync"] }
ic-agent = "=0.49.3"
ic-cdk = "=0.20.3"
syn = { version = "=2.0.119", features = ["full"] }
quote = "=1.0.47"
proc-macro2 = "=1.0.107"
