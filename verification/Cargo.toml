[package]
name = "java_analyzer"
version = "0.1.0"
edition = "2021"
publish = false

[dependencies]
rust-asm = "*"
rustc-hash = "2"
tree-sitter = "*"
tree-sitter-java = "*"
tree-sitter-utils = "*"
ropey = "1"
