[package]
name = "blockifier"
version = "0.1.0"
edition = "2021"
publish = false

[dependencies]
anyhow = "1"
cairo-vm = "*"
num-bigint = "0.4"
num-traits = "0.2"
serde_json = "1"
starknet_api = "*"
