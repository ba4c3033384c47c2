[package]
name = "el_download"
version = "0.1.0"
edition = "2021"
publish = false

[dependencies]
hex = "=0.4.3"
sha2 = "=0.11.0"
serde = { version = "=1.0.229", features = ["derive"] }
once_cell = "=1.21.4"
reqwest = { version = "=0.13.5", default-features = false, features = ["stream"] }
tokio = { version = "=1.53.2", features = ["rt"] }
futures-util = "=0.3.34"
zip = { version = "=8.6.0", default-features = false, features = ["deflate"] }
