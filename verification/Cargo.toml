[package]
name = "idx_mcp"
version = "0.1.0"
edition = "2021"
publish = false

[dependencies]
anyhow = "=1.0.104"
axum = "=0.8.9"
base64 = "=0.22.1"
chromiumoxide = "=0.9.1"
duckdb = "=1.10503.1"
futures = "=0.3.34"
pdf-extract = "=0.10.0"
rand = "=0.9.5"
rmcp = { version = "=1.8.0", features = ["transport-streamable-http-server"] }
rusqlite = { version = "=0.39.0", features = ["bundled"] }
schemars = "=1.2.3"
serde = { version = "=1.0.229", features = ["derive"] }
serde_json = "=1.0.154"
sha2 = "=0.10.9"
tokio = { version = "=1.54.1", features = ["full"] }
tokio-util = "=0.7.20"
tracing = "=0.1.44"
tracing-subscriber = { version = "=0.3.23", default-features = false, features = ["env-filter", "fmt", "smallvec", "std", "tracing-log"] }
wreq = { version = "=0.15.3", default-features = false, features = ["charset", "webpki-roots"] }
wreq-util = "=0.1.0"
