[package]
name = "argmax"
version = "0.1.0"
edition = "2021"
publish = false

[dependencies]
directories = "6"
nix = { version = "0.30", features = ["fs"] }
rustix = { version = "1", features = ["fs", "process"] }
serde = { version = "1", features = ["derive"] }
serde_json = "1"
tempfile = "3"
toml = "0.8"
