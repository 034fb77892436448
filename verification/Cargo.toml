[package]
name = "nanotoken"
version = "0.1.0"
edition = "2021"
publish = false

[dependencies]
solana-program = "=1.18.26"
solana-nostd-entrypoint = "=0.6.2"
bytemuck = { version = "=1.25.2", features = ["derive"] }
