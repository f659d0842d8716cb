[package]
name = "modder"
version = "0.1.0"
edition = "2021"
publish = false

[dependencies]
hmac-sha512 = "=1.1.13"
hex = "=0.4.3"
zip = { version = "=2.6.1", default-features = false, features = ["deflate"] }
percent-encoding = "=2.3.2"
url = { version = "=2.5.8", features = ["serde"] }
colored = "=3.1.1"
tabwriter = "=1.4.1"
regex = "=1.13.1"
clap = { version = "4", features = ["derive", "cargo"] }
serde = { version = "1", features = ["derive"] }
serde_json = "1"
reqwest = { version = "0.12", default-features = false, features = ["json", "rustls-tls"] }
tokio = { version = "1", features = ["rt-multi-thread", "macros", "fs", "sync", "time"] }
futures = { version = "0.3", features = ["executor"] }
inquire = "0.9"
tracing = "0.1"
tracing-subscriber = { version = "0.3", features = ["env-filter"] }
thiserror = "2"
itertools = "0.14"
strum = { version = "0.27", features = ["derive"] }
chrono = { version = "0.4", features = ["serde"] }
better-panic = "0.3"
ratatui = "0.30"
crossterm = "0.29"
tui-input = "0.15"
tui-logger = "0.18"
throbber-widgets-tui = "0.11"
