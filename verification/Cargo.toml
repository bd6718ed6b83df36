[package]
name = "dash_resolver"
version = "0.1.0"
edition = "2021"
publish = false

[dependencies]
roxmltree = "*"
wasm-bindgen = "0.2"
web-sys = { version = "0.3", features = ["console"] }
