[package]
name = "tapasco"
version = "0.1.0"
edition = "2021"
publish = false

[dependencies]
memmap = "0.7"
crossbeam = "0.7"
hex = "0.4"
nix = "0.17"
vfio-bindings = "0.2"
rand = "0.7"
snafu = "0.6"
log = "0.4"
env_logger = "0.7"
clap = "2"
serde = { version = "1", features = ["derive"] }
serde_json = "1"
prost = "0.6"
failure = "0.1"
common_failures = "0.1"
