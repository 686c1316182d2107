[package]
name = "cs2-dumper"
version = "0.1.0"
edition = "2021"
publish = false

[dependencies]
anyhow = "1"
log = "0.4"
memflow = "0.2"
serde = { version = "1", features = ["derive"] }
serde_json = "1"
skidscan = "*"
skidscan-macros = "*"
