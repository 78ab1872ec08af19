[package]
name = "mdbook_htmx"
version = "0.1.0"
edition = "2021"
publish = false

[dependencies]
anyhow = "1"
base64 = "0.22"
chrono = "0.4"
env_logger = "0.11"
log = "0.4"
pulldown-cmark = { version = "0.12", default-features = false, features = ["html"] }
semver = "1"
serde = { version = "1", features = ["derive"] }
serde_json = "1"
serde_yaml = "0.9"
sha2 = "0.10"
tera = "1"
thiserror = "1"
toml = "0.8"
xxhash-rust = { version = "0.8", features = ["xxh3"] }
