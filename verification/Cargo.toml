[package]
name = "mdbook-nix-eval"
version = "0.1.0"
edition = "2021"
publish = false

[dependencies]
mdbook = { version = "=0.4.52", default-features = false }
pulldown-cmark = { version = "=0.10.3", default-features = false }
pulldown-cmark-to-cmark = "=13.0.0"
serde_json = "=1.0.154"
tempfile = "=3.27.0"
