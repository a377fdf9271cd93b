[package]
name = "poc_framework"
version = "0.1.0"
edition = "2021"
publish = false

[dependencies]
solana-sdk = "=2.3.1"
spl-token = "=7.0.0"
spl-associated-token-account = "=6.0.0"
thiserror = "=2.0.21"
