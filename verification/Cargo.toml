[package]
name = "mdbook-fix-cjk-spacing"
version = "0.1.0"
edition = "2021"
publish = false

[dependencies]
anyhow = "=1.0.104"
clap = "=2.34.0"
mdbook = { version = "=0.4.52", default-features = false }
pulldown-cmark = { version = "0.9", default-features = false }
pulldown-cmark-to-cmark = "10"
serde_json = "=1.0.154"
