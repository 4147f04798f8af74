[package]
name = "docuverse"
version = "0.1.0"
edition = "2021"
publish = false

[dependencies]
anyhow = "1"
blake2 = "0.8"
env_logger = "0.7"
hex = "0.4"
html5ever = "0.25"
log = "0.4"
markup5ever_rcdom = "0.1"
regex = "1"
reqwest = { version = "0.10", features = ["blocking"] }
serde = { version = "1", features = ["derive"] }
structopt = "0.3"
toml = "0.5"
url = { version = "2", features = ["serde"] }
v_htmlescape = "*"
