[package]
name = "vault_metrics"
version = "0.1.0"
edition = "2021"
publish = false

[dependencies]
obsidian-parser = "=0.9.4"
petgraph = "=0.8.3"
serde = { version = "=1.0.229", features = ["derive"] }
serde_json = "=1.0.151"
serde_yml = "=0.0.12"
wasm-bindgen = "=0.2.129"
