[package]
name = "vecsim"
version = "0.1.0"
edition = "2021"
publish = false

[dependencies]
blake3 = "*"
aho-corasick = "*"
regex = "*"
globset = "*"
walkdir = "*"
rayon = "*"
serde = { version = "*", features = ["derive"] }
serde_json = "*"
