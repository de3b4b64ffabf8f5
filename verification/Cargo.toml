[package]
name = "dragit_wasm"
version = "0.1.0"
edition = "2021"
publish = false

[dependencies]
async-channel = "1"
console_error_panic_hook = "0.1"
futures = "0.3"
js-sys = "0.3"
libp2p = { version = "0.41", default-features = false, features = ["rendezvous", "ping", "noise", "mplex", "wasm-ext", "wasm-ext-websocket"] }
wasm-bindgen = "0.2"
wasm-bindgen-futures = "0.4"
