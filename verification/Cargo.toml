[package]
name = "lightarti_rest"
version = "0.1.0"
edition = "2021"
publish = false

[dependencies]
tor-netdoc = { version = "=0.47.0", features = ["experimental-api"] }
tor-checkable = "=0.47.0"
rand = "=0.10.3"
serde_json = "=1.0.151"
