[package]
name = "vscode_api"
version = "0.1.0"
edition = "2021"
publish = false

[dependencies]
indexmap = "2"
once_cell = "1"
wit-bindgen = "*"
