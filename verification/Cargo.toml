[package]
name = "bbv"
version = "0.1.0"
edition = "2021"
publish = false

[dependencies]
cosmwasm-std = "1.5"
astroport = "1"
terraswap = "2.6"
terra-cosmwasm = "2"
moneymarket = "0.3"
cw2 = "1"
cw20 = "1"
cw-storage-plus = "1"
schemars = "0.8"
serde = { version = "1", features = ["derive"] }
