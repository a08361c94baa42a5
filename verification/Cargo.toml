[package]
name = "fpv"
version = "0.1.0"
edition = "2021"
publish = false

[dependencies]
anyhow = "*"
crossterm = "*"
ignore = "*"
ratatui = "*"
serde = { version = "*", features = ["derive"] }
time = "*"
toml = "*"
tree-sitter = "*"
tree-sitter-bash = "*"
tree-sitter-c = "*"
tree-sitter-cpp = "*"
tree-sitter-css = "*"
tree-sitter-go = "*"
tree-sitter-highlight = "*"
tree-sitter-html = "*"
tree-sitter-java = "*"
tree-sitter-javascript = "*"
tree-sitter-json = "*"
tree-sitter-md = "*"
tree-sitter-python = "*"
tree-sitter-rust = "*"
tree-sitter-toml = "*"
tree-sitter-typescript = "*"
unicode-width = "*"
