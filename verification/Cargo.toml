[package]
name = "llvm_to_cairo"
version = "0.1.0"
edition = "2021"
publish = false

[dependencies]
petgraph = "*"
inkwell = "*"
