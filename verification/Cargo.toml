[package]
name = "luau_compiler"
version = "0.1.0"
edition = "2021"

[dependencies]
wasm-bindgen = "0.2"
