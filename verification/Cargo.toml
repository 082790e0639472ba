[package]
name = "ember"
version = "0.1.0"
edition = "2021"
publish = false

[dependencies]
async-trait = "0.1"
axum = { version = "0.8", default-features = false, features = ["http1", "tokio", "json", "matched-path"] }
bytes = "1"
clap = { version = "4", features = ["derive", "env"] }
hex = "=0.4.3"
http = "=1.5.0"
http-body-util = "0.1"
metrics = "0.24"
metrics-exporter-prometheus = { version = "0.16", default-features = false }
oci-distribution = { version = "=0.11.0", default-features = false, features = ["rustls-tls"] }
parking_lot = "0.12"
reqwest = { version = "0.12", default-features = false, features = ["rustls-tls"] }
serde = { version = "1", features = ["derive"] }
serde_json = "=1.0.154"
sha2 = "=0.10.9"
tokio = { version = "1", features = ["rt-multi-thread", "macros", "net", "signal", "time", "sync"] }
toml = "0.8"
tower = { version = "0.5", features = ["limit", "timeout", "util"] }
tower-http = { version = "0.6", features = ["catch-panic", "request-id", "trace"] }
tracing = "0.1"
tracing-subscriber = { version = "0.3", features = ["env-filter", "json"] }
wasmparser = "=0.263.0"
wasmtime = { version = "=34.0.2", default-features = false, features = ["runtime", "cranelift", "component-model", "async", "pooling-allocator", "std", "gc", "gc-null", "parallel-compilation", "cache"] }
wasmtime-wasi = { version = "=34.0.2", default-features = false }
wasmtime-wasi-http = { version = "=34.0.2", default-features = false }
