[package]
name = "link_lib"
version = "0.1.0"
edition = "2021"
publish = false

[dependencies]
postcard = { version = "=1.0.8", features = ["alloc"] }
cobs = "0.2"
heapless = "0.7"
serde = { version = "1", features = ["derive"] }
tokio = { version = "1", features = ["io-util", "rt", "rt-multi-thread", "sync"] }
tokio-serial = { version = "5", default-features = false }
anyhow = "1"
embedded-hal = "0.2"
nb = "1"
eeprom24x = "0.6"
opt300x = "0.1"
chrono = { version = "0.4", default-features = false }
