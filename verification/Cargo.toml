[package]
name = "mdbook-linkcheck"
version = "0.1.0"
edition = "2021"
publish = false

[dependencies]
pulldown-cmark = { version = "0.10", default-features = false }
mdbook = { version = "0.4", default-features = false }
serde_json = "1"
structopt = "0.3"
env_logger = "0.11"
failure = "0.1"
reqwest = { version = "0.12", default-features = false, features = ["blocking", "rustls-tls"] }
