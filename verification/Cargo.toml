[package]
name = "zip_extractor"
version = "0.1.0"
edition = "2021"
publish = false

[dependencies]
anyhow = "1"
num_cpus = "1"
rayon = "1"
zip = { version = "*", default-features = false, features = ["deflate"] }
