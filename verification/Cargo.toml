[package]
name = "portwatcher"
version = "0.1.0"
edition = "2021"
publish = false

[dependencies]
nix = { version = "0.29", features = ["signal", "fs"] }
users = "0.11"
serde = { version = "1", features = ["derive"] }
serde_json = "1"
