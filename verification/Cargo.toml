[package]
name = "webtiles-rs"
version = "0.1.0"
edition = "2021"
publish = false

[dependencies]
anyhow = "1"
argon2 = "0.5"
axum = { version = "0.8", features = ["ws"] }
axum-server = { version = "0.7", features = ["tls-rustls"] }
clap = { version = "4", features = ["derive"] }
flate2 = "1"
hex = "0.4"
leptos = { version = "0.8", features = ["ssr"] }
libc = "0.2"
mime_guess = "2"
pty-process = { version = "0.4", features = ["async"] }
pwhash = "1"
rand = "0.8"
rusqlite = { version = "*", features = ["bundled"] }
rust-embed = "8"
rustls = "0.23"
serde = { version = "1", features = ["derive"] }
serde_json = "1"
serde_yaml = "0.9"
sha1 = "0.10"
thiserror = "2"
time = "0.3"
tokio = { version = "1", features = ["full"] }
tower-http = { version = "0.6", features = ["trace"] }
tracing = "0.1"
tracing-subscriber = { version = "0.3", features = ["env-filter"] }
