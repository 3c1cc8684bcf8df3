[package]
name = "satrs"
version = "0.1.0"
edition = "2021"
publish = false

[dependencies]
bus = "=2.4.1"
cobs = "=0.2.3"
crc = "=3.4.0"
hashbrown = "=0.17.1"
serde = { version = "=1.0.229", features = ["derive"] }
serde_json = "=1.0.154"
spacepackets = "=0.19.0"
thiserror = "=2.0.21"

[dev-dependencies]
arbitrary-int = "=2.2.0"
