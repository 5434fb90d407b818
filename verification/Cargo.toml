[package]
name = "ris_live_rs"
version = "0.1.0"
edition = "2021"
publish = false

[dependencies]
serde = { version = "1", features = ["derive"] }
serde_json = "1"
ipnet = "*"
bgp-models = "*"
structopt = "*"
tungstenite = "*"
