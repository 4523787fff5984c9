[package]
name = "pop_chain_spec"
version = "0.1.0"
edition = "2021"
publish = false

[dependencies]
sp-core = "*"
sp-runtime = "*"
serde = { version = "*", features = ["derive"] }
serde_json = "*"
