[package]
name = "oxc_playground"
version = "0.1.0"
edition = "2021"
publish = false

[dependencies]
oxc = { version = "=0.139.0", features = ["full", "cfg", "serialize"] }
oxc_index = "*"

[dev-dependencies]
serde_json = "1"
