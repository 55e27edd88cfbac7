[package]
name = "minskatt"
version = "0.1.0"
edition = "2021"
publish = false

[dependencies]
anyhow = "1"
chrono = "0.4"
fern = { version = "0.6", features = ["colored"] }
log = "0.4"
structopt = "0.3"
wasm-bindgen = "0.2"
