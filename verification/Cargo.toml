[package]
name = "tree_parser"
version = "0.1.0"
edition = "2021"
publish = false

[dependencies]
tree-sitter = "*"
tree-sitter-python = "*"
tree-sitter-rust = "*"
tree-sitter-javascript = "*"
tree-sitter-typescript = "*"
tree-sitter-java = "*"
tree-sitter-c = "*"
tree-sitter-cpp = "*"
tree-sitter-go = "*"
regex = "*"
streaming-iterator = "*"
num_cpus = "*"
tokio = { version = "*", features = ["rt", "rt-multi-thread", "fs", "sync", "macros"] }
futures = "*"
walkdir = "*"
