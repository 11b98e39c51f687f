[package]
name = "epub_io"
version = "0.1.0"
edition = "2021"
publish = false

[dependencies]
html-escape = "=0.2.15"
quick-xml = "=0.37.5"
zip = { version = "=2.6.1", default-features = false, features = ["deflate"] }
epub-builder = "=0.8.3"
open-library-api-rs = "=0.1.0"
anyhow = "=1.0.104"
axum = { version = "=0.8.9", features = ["multipart"] }
clap = { version = "=4.6.7", features = ["derive"] }
reqwest = { version = "=0.12.28", default-features = false }
serde = { version = "=1.0.229", features = ["derive"] }
tempfile = "=3.27.0"
tokio = { version = "=1.54.1", features = ["full"] }
tower-http = { version = "=0.6.11", features = ["cors", "trace"] }
tracing = "=0.1.44"
tracing-subscriber = { version = "=0.3.23", features = ["env-filter"] }
utoipa = "=5.5.0"
utoipa-swagger-ui = { version = "9", features = ["axum", "vendored"] }
