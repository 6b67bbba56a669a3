[package]
name = "inline_blame"
version = "0.1.0"
edition = "2021"
rust-version = "1.95"
publish = false

[dependencies]
anyhow = "=1.0.104"
gix = { version = "=0.70.0", default-features = false, features = ["attributes", "status", "blame"] }
gix-date = "=0.9.4"
jiff = { version = "=0.2.38", default-features = false }
kstring = "=2.0.2"
once_cell = "=1.21.4"
tokio = { version = "=1.54.1", features = ["rt", "sync", "time", "macros"] }

[dev-dependencies]
tempfile = "=3.27.0"
