[package]
name = "smart_contract"
version = "0.1.0"
edition = "2021"
publish = false

[dependencies]
borsh = "=1.8.1"
solana-program = "=5.1.0"
solana-system-interface = { version = "=3.3.0", features = ["bincode"] }
thiserror = "=2.0.21"
