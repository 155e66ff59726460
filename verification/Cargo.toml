[package]
name = "nixos_rsbuild"
version = "0.1.0"
edition = "2021"
publish = false

[dependencies]
camino = "1"
chrono = { version = "0.4", features = ["serde"] }
clap = { version = "4", features = ["derive"] }
cmd_lib = "1"
env_logger = "0.11"
hostname = "0.4"
log = "0.4"
nix = { version = "0.29", features = ["user"] }
semver = { version = "1", features = ["serde"] }
serde = { version = "1", features = ["derive"] }
serde_json = "1"
strum = { version = "0.26", features = ["derive"] }
tempdir = "0.3"
