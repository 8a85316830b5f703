[package]
name = "eth_block_meta"
version = "0.1.0"
edition = "2021"
publish = false

[dependencies]
anyhow = "=1.0.104"
chrono = "=0.4.45"
prost = "=0.11.9"
prost-types = "=0.11.9"
substreams = "=0.5.22"
substreams-database-change = "=1.3.1"
substreams-ethereum = "=0.9.13"
