[package]
name = "mantra_vanity"
version = "0.1.0"
edition = "2021"
publish = false

[dependencies]
bech32 = "=0.9.1"
bip39 = "=2.2.2"
console_error_panic_hook = "0.1"
hmac = "=0.12.1"
k256 = "=0.13.4"
rand = "=0.8.8"
ripemd = "=0.1.3"
sha2 = "=0.10.9"
wasm-bindgen = "=0.2.129"
