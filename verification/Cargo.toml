[package]
name = "socket_relay"
version = "0.1.0"
edition = "2021"
publish = false

[dependencies]
serde = { version = "=1.0.229", features = ["derive"] }
serde_json = "=1.0.154"
tokio = { version = "=1.54.1", features = ["net", "io-util", "rt-multi-thread", "macros"] }
wasi = "=0.14.7"
nexmark = { version = "=0.2.0", features = ["serde"] }
csv = "=1.4.0"
wasmtime = "30"
wasmtime-wasi = "30"
