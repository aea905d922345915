[package]
name = "cargo-safe-publish"
version = "0.1.0"
edition = "2021"
publish = false

[dependencies]
cargo_metadata = "*"
colored = "*"
flate2 = "*"
gix = "*"
ignore = "*"
serde = "*"
serde_derive = "*"
similar-asserts = "*"
tar = "*"
toml = "*"
ureq = "*"
