[package]
name = "name_registry"
version = "0.1.0"
edition = "2021"
publish = false

[dependencies]
solana-program = "2"

[dev-dependencies]
borsh = "1"
