[package]
name = "rail"
version = "0.1.0"
edition = "2021"
publish = false

[dependencies]
serde = { version = "1", features = ["derive"] }
serde_json = "1"
thiserror = "1"
log = "0.4"
env_logger = { version = "0.11", default-features = false }
num-complex = "0.4"
rustfft = "6"
bytemuck = "1"
nusb = "0.1"
tokio = { version = "1", features = ["sync", "rt", "rt-multi-thread", "time", "macros"] }
