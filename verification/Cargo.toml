[package]
name = "runtime_fuzzing"
version = "0.1.0"
edition = "2021"
publish = false

[dependencies]
arbitrary = { version = "=1.5.0", features = ["derive"] }
env_logger = { version = "=0.11.11", default-features = false }
libfuzzer-sys = "0.4"
log = "0.4"
parity-scale-codec = "=3.7.5"
rusqlite = { version = "=0.41.1", features = ["bundled"] }
serde_json = "=1.0.154"
sp-authority-discovery = "=44.0.0"
sp-consensus-babe = "=0.50.0"
sp-consensus-beefy = "=32.0.0"
sp-core = "=43.0.0"
sp-runtime = "=49.0.0"
sp-state-machine = "=0.54.0"
