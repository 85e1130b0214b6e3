[package]
name = "kennedy"
version = "0.1.0"
edition = "2021"
publish = false

[dependencies]
cranelift = "0.95"
cranelift-codegen = "0.95"
cranelift-jit = "0.95"
cranelift-module = "0.95"
cranelift-native = "0.95"
memmap2 = "*"
target-lexicon = "0.12"
