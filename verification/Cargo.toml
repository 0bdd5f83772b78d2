[package]
name = "nasl_analyzer"
version = "0.1.0"
edition = "2021"
publish = false

[dependencies]
tree-sitter = "=0.20.10"
tree-sitter-nasl = "=0.1.0"
tree-sitter-c = "=0.20.8"
lsp-server = "=0.10.0"
lsp-types = "=0.97.0"
serde = { version = "=1.0.229", features = ["derive"] }
serde_json = "=1.0.151"
tracing = "=0.1.44"
tracing-subscriber = "=0.3.23"
