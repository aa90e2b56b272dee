[package]
name = "spinning_rust_chiller"
version = "0.1.0"
edition = "2021"
publish = false

[dependencies]
anyhow = "*"
env_logger = "*"
log = "*"
serde = { version = "*", features = ["derive"] }
structopt = "*"
toml = "*"
