[package]
name = "code_skim"
version = "0.1.0"
edition = "2021"
publish = false

[dependencies]
tree-sitter = "=0.21.0"
tree-sitter-python = "=0.21.0"
tree-sitter-javascript = "=0.21.4"
tree-sitter-typescript = "=0.21.2"
tree-sitter-rust = "=0.21.2"
tree-sitter-java = "=0.21.0"
tree-sitter-kotlin = "=0.3.8"
rand = "=0.8.8"
tokio = { version = "=1.53.2", features = ["rt-multi-thread", "macros", "fs", "sync", "io-util"] }
git2 = { version = "=0.21.0", default-features = false }
