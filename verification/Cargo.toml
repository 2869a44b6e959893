[package]
name = "gobley_uniffi_bindgen"
version = "0.1.0"
edition = "2021"
publish = false

[dependencies]
anyhow = "1"
camino = "1"
fs-err = "2"
toml = "0.5"
uniffi_bindgen = "0.28"
