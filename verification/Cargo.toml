[package]
name = "cw_lootboxes"
version = "0.1.0"
edition = "2021"
publish = false

[dependencies]
cosmwasm-std = "1.5"
cosmwasm-schema = "1.5"
cw-storage-plus = "1.2"
cw-utils = "1.0"
cw2 = "1.1"
rand = "0.8"
schemars = "0.8"
serde = { version = "1", features = ["derive"] }
thiserror = "1"
