[package]
name = "sassafras_gossip"
version = "0.1.0"
edition = "2021"
publish = false

[dependencies]
blake2 = "0.10"
futures = "0.3"

[dev-dependencies]
parity-scale-codec = "3"
