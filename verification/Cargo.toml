[package]
name = "record_lifecycle"
version = "0.1.0"
edition = "2021"
publish = false

[dependencies]
solana-program = "*"
spl-token = "*"
spl-associated-token-account = "*"

[dev-dependencies]
borsh = "*"
