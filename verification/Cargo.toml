[package]
name = "polygraph"
version = "0.1.0"
edition = "2021"
publish = false

[dependencies]
tree-sitter = "=0.27.1"
tree-sitter-rust = "=0.24.2"
tree-sitter-python = "=0.25.0"
tree-sitter-javascript = "=0.25.0"
tree-sitter-typescript = "=0.23.2"
tree-sitter-c = "=0.24.2"
tree-sitter-go = "=0.25.0"
tree-sitter-java = "=0.23.5"
serde = { version = "=1.0.229", features = ["derive"] }
serde_json = "=1.0.154"
toml = "=1.1.8"
walkdir = "=2.5.0"
comfy-table = "=8.0.1"
clap = { version = "=4.6.7", features = ["derive"] }
