[package]
name = "life_sim"
version = "0.1.0"
edition = "2021"
publish = false

[dependencies]
rand = "0.8"
serde = { version = "1", features = ["derive"] }
serde_json = "1"
config = "0.14"
dot-writer = "0.1"
noise = "0.9"
strum = "0.26"
strum_macros = "0.26"
pixels = "0.13"
