[package]
name = "private_swap_vault"
version = "0.1.0"
edition = "2021"
publish = false

[dependencies]
sha2 = "0.10"
hex = "0.4"
serde = { version = "1", features = ["derive"] }
anchor-lang = "0.29.0"
anchor-spl = "0.29.0"
risc0-zkvm = { version = "1", default-features = false }
