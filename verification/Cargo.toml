[package]
name = "chainstaking"
version = "0.1.0"
edition = "2021"
publish = false

[dependencies]
anchor-lang = "0.31"
solana-stake-interface = { version = "1.2", features = ["bincode"] }
