[package]
name = "definex"
version = "0.1.0"
edition = "2021"
publish = false

[dependencies]
parity-scale-codec = "*"
sp-io = "*"
hkd32 = "*"
simple_json = "*"
serde = { version = "1", features = ["derive"] }
