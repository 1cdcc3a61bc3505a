[package]
name = "paywow"
version = "0.1.0"
edition = "2021"
publish = false

[dependencies]
soroban-sdk = "*"
stellar-access = "*"
stellar-contract-utils = "*"
stellar-macros = "*"
stellar-tokens = "*"
