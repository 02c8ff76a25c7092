[package]
name = "cargo_minimize"
version = "0.1.0"
edition = "2021"
publish = false

[dependencies]
syn = { version = "1", features = ["full", "visit-mut"] }
prettyplease = "0.1"
quote = "1"
anyhow = "1"
walkdir = "2"
