[package]
name = "akkuea_contracts"
version = "0.1.0"
edition = "2021"
publish = false

[dependencies]
soroban-sdk = "=25.3.2"
sep-40-oracle = "=1.4.0"
