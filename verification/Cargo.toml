[package]
name = "zkpod"
version = "0.1.0"
edition = "2021"
publish = false

[dependencies]
base64 = "=0.23.1"
borsh = "=1.8.1"
clap = { version = "=4.6.7", features = ["derive"] }
crossterm = "=0.29.0"
jsonwebtoken = "=9.3.1"
ratatui = "=0.30.2"
risc0-zkvm = { version = "=3.0.6", default-features = false, features = ["client"] }
serde_json = "=1.0.151"
sha2 = "=0.11.0"
uuid = { version = "=1.27.0", features = ["v4"] }
