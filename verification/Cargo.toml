[package]
name = "workshop"
version = "0.1.0"
edition = "2021"
publish = false

[dependencies]
pulldown-cmark = { version = "0.13", default-features = false }
textwrap = "0.16"
semver = "1"
serde = { version = "1", features = ["derive"] }
serde_yaml = "0.9"
ratatui = "0.29"
crossterm = { version = "0.28", features = ["event-stream"] }
tokio = { version = "1", features = ["full"] }
tokio-util = "0.7"
futures = "0.3"
futures-timer = "3"
directories = "6"
shellexpand = "3"
webbrowser = "1"
tracing = "0.1"
tracing-subscriber = { version = "0.3", features = ["env-filter"] }
anyhow = "1"
clap = { version = "4", features = ["derive"] }
thiserror = "2"
async-trait = "0.1"
