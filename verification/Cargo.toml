[package]
name = "live_preview"
version = "0.1.0"
edition = "2021"
publish = false

[dependencies]
lsp-types = "0.94"
