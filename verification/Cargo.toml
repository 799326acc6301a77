[package]
name = "echec"
version = "0.1.0"
edition = "2021"
publish = false

[dependencies]
rand = "0.8"
rayon = "1"
serde = { version = "1", features = ["derive"] }
serde_json = "1"
shakmaty = "0.27"
tiny_http = "0.12"
