[package]
name = "hashfile"
version = "0.1.0"
edition = "2021"
publish = false

[dependencies]
anyhow = "1"
blake3 = "1"
clap = { version = "4", features = ["derive"] }
colored = "2"
hex = "0.4"
md-5 = "0.10"
rayon = "1"
sha1 = "0.10"
sha2 = "0.10"
walkdir = "2"
