[package]
name = "pixelpipe"
version = "0.1.0"
edition = "2021"
publish = false

[dependencies]
image = "0.25"
imageproc = "0.25"
ab_glyph = "0.2"
rand = "0.8"
serde = { version = "1", features = ["derive"] }
serde_json = "1"
anyhow = "1"
hyper = { version = "1", features = ["http1", "server"] }
http-body-util = "0.1"
smol = "2"
smol-hyper = "0.1"
