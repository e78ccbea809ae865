[package]
name = "fselect"
version = "0.1.0"
edition = "2021"
publish = false

[dependencies]
regex = "=1.13.1"
serde = { version = "=1.0.229", features = ["derive"] }
serde_json = "=1.0.154"
csv = "=1.4.0"
toml = "=1.1.8"
directories = "=6.0.0"
rand = "=0.10.3"
rbase64 = "=2.0.3"
human-time = "*"
uzers = "=0.12.2"
