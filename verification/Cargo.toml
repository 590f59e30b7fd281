[package]
name = "supersilver"
version = "0.1.0"
edition = "2021"
publish = false

[dependencies]
postcard = "1"
serde = { version = "1", default-features = false }
nusb = { version = "0.2", features = ["tokio"] }
tokio = { version = "1", features = ["rt", "macros", "io-util"] }
