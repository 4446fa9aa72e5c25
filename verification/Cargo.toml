[package]
name = "cowbet"
version = "0.1.0"
edition = "2021"
publish = false

[dependencies]
cosmwasm-std = "=1.5.11"
cosmwasm-storage = "=1.5.2"
cw-storage-plus = "=1.2.0"
cw2 = "=1.1.2"
schemars = "=0.8.22"
serde = { version = "1", features = ["derive"] }
thiserror = "1"
