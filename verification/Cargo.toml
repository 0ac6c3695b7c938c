[package]
name = "oximeter"
version = "0.1.0"
edition = "2021"
publish = false

[dependencies]
chrono = { version = "=0.4.45", default-features = false, features = ["clock", "std"] }
clap = { version = "=4.6.7", features = ["derive"] }
env_logger = "=0.11.11"
hidapi = { version = "=2.6.7", default-features = false, features = ["linux-native-basic-udev"] }
log = "=0.4.34"
