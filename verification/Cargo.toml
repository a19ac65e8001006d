[package]
name = "allocsite"
version = "0.1.0"
edition = "2021"
publish = false

[dependencies]
anyhow = "*"
clap = { version = "*", features = ["derive"] }
dwat = "*"
globset = "*"
memmap2 = "*"
regex = "*"
tokio = { version = "*", features = ["rt-multi-thread", "macros", "fs", "io-util", "sync"] }
tree-sitter = "0.20"
tree-sitter-c = "0.20"
walkdir = "*"
