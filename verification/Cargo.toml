[package]
name = "ipa_pc"
version = "0.1.0"
edition = "2021"
publish = false

[dependencies]
curve25519-dalek = "4"
merlin = "3"
serde = { version = "1", features = ["derive"] }
