[package]
name = "dollgen"
version = "0.1.0"
edition = "2021"
rust-version = "1.95"
publish = false

[dependencies]
capturing-glob = "=0.1.1"
liquid = "=0.26.11"
minijinja = { version = "=2.24.0", features = ["loader"] }
toml = "=1.1.7"
grass = "=0.13.4"
convert_case = "=0.12.0"
wasm-bindgen-cli-support = "=0.2.129"
kstring = "=2.0.2"
