[package]
name = "mica"
version = "0.1.0"
edition = "2021"
publish = false

[dependencies]
ropey = { version = "=1.6.1", default-features = false, features = ["simd"] }
unicode-segmentation = "=1.13.3"
unicode-width = "=0.2.3"
vte = "=0.13.1"
crossterm = "=0.28.1"
clap = { version = "=4.6.7", features = ["derive"] }
serde = { version = "=1.0.229", features = ["derive"] }
serde_json = "=1.0.154"
lsp-types = "=0.97.0"
regex = "=1.13.1"
globset = "=0.4.21"
ignore = "=0.4.34"
nucleo-matcher = "=0.3.1"
toml = "=0.8.23"
tree-sitter = "=0.27.1"
streaming-iterator = "=0.1.9"
tree-sitter-rust = "=0.24.2"
tree-sitter-c = "=0.24.2"
tree-sitter-cpp = "=0.23.4"
tree-sitter-python = "=0.25.0"
tree-sitter-json = "=0.24.8"
tree-sitter-md = "=0.5.4"
tree-sitter-toml-ng = "=0.7.0"
tree-sitter-yaml = "=0.7.2"
tree-sitter-bash = "=0.25.1"
tree-sitter-javascript = "=0.25.0"
tree-sitter-typescript = "=0.23.2"
tree-sitter-html = "=0.23.2"
tree-sitter-css = "=0.25.0"
base64 = "0.22"
