[package]
name = "mochi"
version = "0.1.0"
edition = "2021"
publish = false

[dependencies]
axum = "0.7"
clap = { version = "4", features = ["derive", "env"] }
handlebars = "6"
log = "0.4"
opentelemetry = "*"
reqwest = { version = "0.12", default-features = false }
serde = { version = "1", features = ["derive"] }
serde_json = "1"
serde_yaml = "0.9"
sxd-document = "0.3"
sxd-xpath = "0.4"
tokio = { version = "1", features = ["rt-multi-thread", "macros", "time", "net"] }
walkdir = "2"
