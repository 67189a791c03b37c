[package]
name = "grid"
version = "0.1.0"
edition = "2021"
publish = false

[dependencies]
chrono = { version = "0.4", default-features = false, features = ["clock", "std"] }
serde_json = "1"
tonic = "0.10"
prost = "0.12"
tokio = { version = "1", features = ["rt-multi-thread", "macros"] }
sysinfo = "0.29"
hostname = "0.3"
users = "0.11"
signal-hook = "0.3"
libc = "0.2"
log = "0.4"
env_logger = "0.10"
