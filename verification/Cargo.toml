[package]
name = "frauth_init"
version = "0.1.0"
edition = "2021"
publish = false

[dependencies]
dialoguer = "0.5"
ed25519-dalek = { version = "1.0.1", features = ["serde"] }
rand = "0.7"
serde = { version = "1", features = ["derive"] }
toml = "0.5"
