[package]
name = "file_bank"
version = "0.1.0"
edition = "2021"
publish = false

[dependencies]
parity-scale-codec = { version = "2", features = ["derive"] }
scale-info = { version = "1", features = ["derive"] }
sp-arithmetic = "4"
