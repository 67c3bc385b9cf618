[package]
name = "stream_pulse"
version = "0.1.0"
edition = "2021"
publish = false

[dependencies]
anyhow = "1"
apalis = "*"
apalis-cron = "*"
chrono = "0.4"
clap = { version = "4", features = ["derive", "env"] }
cron = "*"
dotenvy = "0.15"
itertools = "0.13"
rayon = "1"
regex = "1"
reqwest = { version = "0.12", default-features = false, features = ["json", "multipart", "rustls-tls"] }
serde = { version = "1", features = ["derive"] }
serde_json = "1"
sqlx = { version = "0.8", default-features = false, features = ["postgres", "runtime-tokio", "chrono"] }
thiserror = "1"
tokio = { version = "1", features = ["rt", "macros", "fs"] }
ytdlp_bindings = "*"
