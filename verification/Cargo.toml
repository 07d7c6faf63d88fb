[package]
name = "solana_nostd_entrypoint"
version = "0.1.0"
edition = "2021"
publish = false

[dependencies]
solana-msg = "2"
solana-program = { version = "2", default-features = false }
solana-program-entrypoint = "2"
solana-program-error = "2"
solana-program-memory = "2"
solana-pubkey = { version = "2", default-features = false }
