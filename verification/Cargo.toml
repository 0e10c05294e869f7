[package]
name = "treemerge"
version = "0.1.0"
edition = "2021"
publish = false

[dependencies]
anyhow = "1"
clap = { version = "4", features = ["derive"] }
globset = "0.4"
indicatif = "*"
infer = "*"
rayon = "1"
walkdir = "2"
