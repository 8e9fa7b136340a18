[package]
name = "vs_scaffold"
version = "0.1.0"
edition = "2021"
publish = false

[dependencies]
aho-corasick = "0.7"
anyhow = "1"
clap = { version = "4", features = ["derive"] }
random-string = "1"
