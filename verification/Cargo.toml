[package]
name = "waydroidsu"
version = "0.1.0"
edition = "2021"
publish = false

[dependencies]
anyhow = "=1.0.104"
clap = { version = "=4.6.7", features = ["derive"] }
colored = "=3.1.1"
dbus = { version = "=0.9.12", features = ["vendored"] }
flate2 = "=1.1.10"
indicatif = "=0.17.11"
ini = "=1.3.0"
libc = "=0.2.191"
rand = "=0.9.5"
reqwest = { version = "=0.12.28", features = ["blocking"] }
serde = { version = "=1.0.229", features = ["derive"] }
serde_json = "=1.0.154"
which = "=7.0.3"
zip = "=2.6.1"
