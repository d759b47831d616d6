[package]
name = "fass_backup"
version = "0.1.0"
edition = "2021"
publish = false

[dependencies]
sha2 = "0.10"
serde = { version = "1", features = ["derive"] }
serde_json = "1"
walkdir = "2"
dirs-next = "2"
nix = { version = "0.29", features = ["signal"] }
daemonize-me = "2"
signal-hook = "0.3"
chrono = "0.4"
