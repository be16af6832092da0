[package]
name = "game_of_life"
version = "0.1.0"
edition = "2021"
publish = false

[dependencies]
cfg-if = "*"
js-sys = "*"
wasm-bindgen = "*"
web-sys = { version = "*", features = ["console"] }
wee_alloc = "*"
