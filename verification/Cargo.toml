[package]
name = "securecrp"
version = "0.1.0"
edition = "2021"
publish = false

[dependencies]
clap = "*"
csv = "*"
hdrhistogram = "*"
rand = "0.8"
serde_json = "*"
url = "1"

[dependencies.reqwest]
version = "*"
default-features = false
features = ["blocking", "json", "rustls-tls"]
