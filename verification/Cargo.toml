[package]
name = "toolsite"
version = "0.1.0"
edition = "2021"
publish = false

[dependencies]
anyhow = "1"
argon2 = "=0.5.3"
axum = "=0.8.9"
base64 = "=0.22.1"
chacha20poly1305 = "=0.10.1"
chrono = "=0.4.45"
clap = { version = "4", features = ["derive"] }
cron = "=0.17.0"
dotenvy = "0.15"
flate2 = "=1.1.10"
rand = "=0.10.3"
reqwest = { version = "=0.12.28", default-features = false, features = ["blocking", "json", "rustls-tls"] }
rmcp = { version = "=3.8.0", features = ["server", "transport-streamable-http-server", "transport-io"] }
rusqlite = { version = "=0.40.2", features = ["bundled", "hooks", "limits"] }
rusqlite_migration = "=2.6.0"
schemars = "1"
serde = { version = "1", features = ["derive"] }
serde_json = "=1.0.154"
sha2 = "=0.10.9"
tar = "=0.4.46"
tokio = { version = "1", features = ["full"] }
toml = "0.9"
tracing = "0.1"
tracing-subscriber = { version = "0.3", features = ["env-filter"] }
url = "=2.5.8"
urlencoding = "=2.1.3"
wasmtime = { version = "=44.0.3", default-features = false, features = ["runtime", "cranelift", "std", "component-model"] }
wasmtime-wasi = { version = "=44.0.3", default-features = false, features = ["p2"] }
