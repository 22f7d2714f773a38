[package]
name = "mecp"
version = "0.1.0"
edition = "2021"
publish = false

[dependencies]
anyhow = "=1.0.104"
jsonwebtoken = "=9.3.1"
serde = { version = "=1.0.229", features = ["derive"] }
serde_json = "=1.0.151"
tokio = { version = "=1.53.2", features = ["macros", "rt-multi-thread", "fs", "sync", "time"] }
toml = "0.8"
wasmtime = { version = "=27.0.0", default-features = false, features = ["runtime", "cranelift", "component-model", "async"] }
wasmtime-wasi = "=27.0.0"
