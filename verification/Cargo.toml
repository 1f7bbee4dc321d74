[package]
name = "minter"
version = "0.1.0"
edition = "2021"
publish = false

[dependencies]
sha2 = "0.10"
cosmwasm-std = "1.5"
cosmwasm-schema = "1.5"
cw2 = "1.1"
cw721 = "0.18"
cw721-base = { version = "0.18", features = ["library"] }
cw-ownable = "0.5"
cw-storage-plus = "1.2"
schemars = "0.8"
serde = { version = "1", features = ["derive"] }
thiserror = "1"
