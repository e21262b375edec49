[package]
name = "vending_machine"
version = "0.1.0"
edition = "2021"
publish = false

[dependencies]
cosmwasm-std = "*"
cw-storage-plus = "*"
cw2 = "*"
cw20 = "*"
cw20-base = "*"
schemars = "*"
serde = { version = "*", features = ["derive"] }
thiserror = "*"
