[package]
name = "ped"
version = "0.1.0"
edition = "2021"
publish = false

[dependencies]
url = "2"
serde = { version = "1", features = ["derive"] }
serde_json = "1"
toml = "*"
libc = "0.2"
rand_core = "*"
rand_jitter = { version = "*", features = ["std"] }
dpi = "*"
