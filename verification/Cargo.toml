[package]
name = "fw_match_sim"
version = "0.1.0"
edition = "2021"
publish = false

[dependencies]
rand_chacha = "0.3"
serde = { version = "1", features = ["derive"] }
