[package]
name = "donations"
version = "0.1.0"
edition = "2021"
publish = false

[dependencies]
cosmwasm-std = "1.5"
cw-storage-plus = "1.2"
cw-utils = "1.0"
serde = { version = "1.0", features = ["derive"] }
