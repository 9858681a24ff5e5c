[package]
name = "daipendency_extractor_typescript"
version = "0.1.0"
edition = "2021"
publish = false

[dependencies]
daipendency-extractor = "*"
serde = { version = "1", features = ["derive"] }
serde_json = "1"
streaming-iterator = "*"
tree-sitter = "*"
tree-sitter-typescript = "*"
