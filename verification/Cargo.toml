[package]
name = "lib_simulation"
version = "0.1.0"
edition = "2021"
publish = false

[dependencies]
rand = "0.8"
rand_chacha = "0.3"
nalgebra = { version = "0.33", features = ["rand"] }
wasm-bindgen = "0.2"

[dev-dependencies]
approx = "0.5"
