[package]
name = "jwt_redirect_filter"
version = "0.1.0"
edition = "2021"
publish = false

[dependencies]
urlencoding = "*"
proxy-wasm = "*"
