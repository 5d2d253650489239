[package]
name = "mdbook_tailor"
version = "0.1.0"
edition = "2021"
publish = false

[dependencies]
image = "*"
clap = "*"
semver = "*"
serde_json = "*"
mdbook-preprocessor = "*"
