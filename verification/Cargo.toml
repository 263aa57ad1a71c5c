[package]
name = "pmrs"
version = "0.1.0"
edition = "2021"
publish = false

[dependencies]
toml = { version = "=1.1.7", features = ["preserve_order"] }
serde = { version = "=1.0.229", features = ["derive"] }
serde_json = "=1.0.151"
clap = { version = "=4.6.7", features = ["derive"] }
ctrlc = "=3.5.2"
parking_lot = "=0.12.5"
sysinfo = "=0.39.6"
url = "=2.5.8"
