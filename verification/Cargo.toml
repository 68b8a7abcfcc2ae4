[package]
name = "cc_toolgate"
version = "0.1.0"
edition = "2021"
publish = false

[dependencies]
serde = { version = "1", features = ["derive"] }
toml = "*"
tree-sitter = "*"
tree-sitter-bash = "*"
