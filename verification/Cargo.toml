[package]
name = "corevisor"
version = "0.1.0"
edition = "2021"
publish = false

[dependencies]
anyhow = "1"
async-trait = "0.1"
boa_engine = "0.21"
boa_gc = "0.21"
boa_runtime = { version = "0.21", default-features = false, features = ["fetch"] }
clap = { version = "4", features = ["derive"] }
dirs = "7"
http = "=1.5.0"
hyper = "1"
open = "5"
reqwest = { version = "0.12", default-features = false, features = ["json"] }
rmcp = { version = "=3.8.0", features = ["server", "macros", "transport-io"] }
rpassword = "7"
schemars = "1"
serde = { version = "1", features = ["derive"] }
serde_json = "=1.0.154"
tokio = { version = "1", features = ["full"] }
tracing = "0.1"
tracing-subscriber = { version = "0.3", features = ["env-filter"] }
wasi = "0.14"
wasmtime = { version = "41", default-features = false, features = ["runtime", "component-model", "async", "cranelift", "std"] }
wasmtime-wasi = "41"
wasmtime-wasi-http = "41"
