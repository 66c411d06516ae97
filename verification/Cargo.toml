[package]
name = "pasteface"
version = "0.1.0"
edition = "2021"
publish = false

[dependencies]
anyhow = "1"
arboard = { version = "3", default-features = false }
clap = { version = "4", features = ["derive"] }
cpal = "0.15"
crossterm = "0.28"
dirs = "6"
fs2 = "0.4"
hound = "3.5"
libc = "0.2"
ratatui = "0.29"
reqwest = { version = "0.12", default-features = false, features = ["json", "multipart", "rustls-tls"] }
serde = { version = "1", features = ["derive"] }
serde_json = "1"
signal-hook = "0.3"
tokio = { version = "1", features = ["rt", "time", "macros", "net"] }

[dev-dependencies]
tempfile = "3"
