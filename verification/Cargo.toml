[package]
name = "lumins"
version = "0.4.0"
edition = "2021"
publish = false

[dependencies]
blake2 = "0.9"
clap = "2"
env_logger = "0.9"
hashbrown = { version = "0.9", features = ["rayon"] }
indicatif = "0.17"
log = "0.4"
rayon = "1"
seahash = "4"
