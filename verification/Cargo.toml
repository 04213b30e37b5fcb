[package]
name = "game_provider"
version = "0.1.0"
edition = "2021"
publish = false

[dependencies]
rand = "0.8"
prost = "0.13"
prost-types = "0.13"
tonic = "0.12"
tokio = { version = "1", features = ["rt-multi-thread", "macros", "sync"] }
async-stream = "0.3"
futures = "0.3"
