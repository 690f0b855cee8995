[package]
name = "pylon_gov"
version = "0.1.0"
edition = "2021"
publish = false

[dependencies]
cosmwasm-std = "1.5"
cosmwasm-storage = "1.5"
cw2 = "1"
cw20 = "1"
cw-storage-plus = "1"
terraswap = "*"
astroport = "*"
moneymarket = "*"
pylon-utils = "*"
schemars = "0.8"
serde = { version = "1", default-features = false, features = ["derive"] }
