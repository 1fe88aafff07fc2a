[package]
name = "oxideux_rs"
version = "0.1.0"
edition = "2021"
publish = false

[dependencies]
anyhow = "1"
directories = "5"
indexmap = "2"
json = "0.12"
regex = "1"

[dev-dependencies]
bincode = "1.3"
