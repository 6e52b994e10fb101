[package]
name = "buildplan"
version = "0.1.0"
edition = "2021"
publish = false

[dependencies]
base64 = "=0.23.1"
cargo_metadata = "=0.23.1"
clap = { version = "=4.6.7", features = ["derive"] }
color-eyre = "=0.6.5"
flate2 = "=1.1.10"
hex = "=0.4.3"
owo-colors = "=4.4.0"
serde = { version = "=1.0.229", features = ["derive"] }
serde_json = "=1.0.151"
sha2 = "=0.11.0"
tar = "=0.4.46"
toml = "=1.1.6"
