[package]
name = "captain"
version = "0.1.0"
edition = "2021"
publish = false

[dependencies]
cargo_metadata = "*"
dirs = "*"
fs-err = "*"
indicatif = "*"
log = { version = "0.4", features = ["std"] }
owo-colors = "4"
rayon = "1"
serde_json = "1"
strip-ansi-escapes = "0.2"
supports-color = "3"
toml_edit = "*"
walkdir = "2"
