[package]
name = "roextract"
version = "0.1.0"
edition = "2021"
publish = false

[dependencies]
rusqlite = { version = "*", features = ["bundled"] }
zstd = "*"
hex = "*"
filetime = "*"
whoami = "*"
