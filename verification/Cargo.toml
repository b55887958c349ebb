[package]
name = "sim_core"
version = "0.1.0"
edition = "2021"
publish = false

[dependencies]
slotmap = "=1.1.1"
rand = "=0.9.5"
serde = { version = "=1.0.229", features = ["derive"] }
tsify-next = "=0.5.6"
wasm-bindgen = "=0.2.130"
tracing = "=0.1.44"
polars = { version = "=0.55.2", default-features = false, features = ["parquet"] }
