[package]
name = "zbxpatrol"
version = "1.0.0"
edition = "2021"
publish = false

[dependencies]
regex = "1"
chrono = "0.4"
chrono-tz = "*"
serde = { version = "1", features = ["derive"] }
serde_json = "1"
toml = "*"
thiserror = "*"
tokio = { version = "1", features = ["full"] }
futures = "0.3"
reqwest = { version = "0.12", default-features = false, features = ["json", "rustls-tls"] }
axum = "*"
clap = { version = "4", features = ["derive", "env"] }
comfy-table = "*"
dialoguer = "*"
dotenvy = "*"
indicatif = "*"
rust_xlsxwriter = "*"
rustyline = "*"
tracing = "0.1"
tracing-subscriber = { version = "0.3", features = ["env-filter"] }
