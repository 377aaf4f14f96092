[package]
name = "wynd-lsd-hub"
version = "1.1.0"
edition = "2021"
publish = false

[dependencies]
cosmwasm-schema = "1.5"
cosmwasm-std = { version = "1.5", features = ["staking", "stargate"] }
cw-controllers = "1.1"
cw-storage-plus = "1.1"
cw-utils = "1.0"
cw2 = "1.1"
cw20 = "1.1"
cw20-base = { version = "1.1", features = ["library"] }
semver = "1"
serde = { version = "1", features = ["derive"] }
thiserror = "1"
