[package]
name = "uniswap_v2"
version = "0.1.0"
edition = "2021"
publish = false

[dependencies]
alloy = { version = "1.0", default-features = false }
num-bigint = "0.4"
tycho-common = "0.85"
