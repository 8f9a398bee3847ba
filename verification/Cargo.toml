[package]
name = "streams"
version = "0.1.0"
edition = "2021"
publish = false

[dependencies]
anyhow = "1"
chrono = { version = "0.4", default-features = false, features = ["clock"] }
clap = { version = "4", default-features = false, features = ["std", "help", "usage", "error-context", "derive", "env"] }
conjure-object = "=4.15.0"
conjure-runtime-rustls-platform-verifier = "=0.1.0"
crossterm = { version = "=0.28.1", default-features = false, features = ["events"] }
ctrlc = "3"
dotenvy = "0.15"
futures = { version = "0.3", default-features = false, features = ["std"] }
ratatui = { version = "=0.29.0", default-features = false, features = ["crossterm"] }
reqwest = { version = "=0.12.28", default-features = false, features = ["blocking", "json", "rustls-tls"] }
serde = { version = "1", features = ["derive"] }
serde_json = "=1.0.154"
tokio = { version = "1", features = ["rt-multi-thread"] }
toml = { version = "=0.8.23", default-features = false, features = ["parse"] }
url = "=2.5.8"
