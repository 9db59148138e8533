[package]
name = "raw_nusb"
version = "0.1.0"
edition = "2021"
publish = false

[dependencies]
nusb = { version = "0.2", features = ["tokio"] }
postcard-schema = "0.2"
serde = { version = "1", features = ["derive"] }
thiserror = "2"
tokio = { version = "1", features = ["rt", "io-util"] }
tracing = "0.1"
wasm-bindgen-futures = "0.4"
