[package]
name = "staking"
version = "0.1.0"
edition = "2021"
publish = false

[dependencies]
solana-program = "1.18"
spl-token = { version = "4", default-features = false, features = ["no-entrypoint"] }
borsh = "0.10"
thiserror = "1"
num-derive = "0.4"
num-traits = "0.2"
