[package]
name = "sebeke"
version = "0.1.0"
edition = "2021"
publish = false

[dependencies]
anyhow = "1"
axum = { version = "0.8", default-features = false, features = ["http1", "tokio", "multipart"] }
ciborium = "0.2"
clap = { version = "4", default-features = false, features = ["std", "derive", "help", "usage", "error-context"] }
crossterm = "0.28"
dashmap = "6"
moka = { version = "0.12", features = ["sync"] }
ratatui = { version = "0.29", default-features = false, features = ["crossterm"] }
regex = "1"
reqwest = { version = "0.12", default-features = false, features = ["json", "multipart"] }
serde = { version = "1", features = ["derive"] }
serde_bytes = "0.11"
serde_json = "1"
tokio = { version = "1", features = ["full"] }
tracing = "0.1"
tracing-subscriber = { version = "0.3", default-features = false, features = ["fmt"] }
which = "*"
zenoh = { version = "1", default-features = false, features = ["transport_tcp"] }
