[package]
name = "kasbah"
version = "0.1.0"
edition = "2021"
publish = false

[dependencies]
anchor-lang = "=0.31.2"
ark-bn254 = "=0.5.0"
ark-ff = "=0.5.0"
ark-serialize = "=0.5.0"
ark-std = "=0.5.0"
blake3 = "=1.8.7"
borsh = "=1.8.1"
bytemuck = "=1.25.2"
console_error_panic_hook = "=0.1.7"
getrandom = "=0.3.4"
js-sys = "=0.3.106"
light-poseidon = "=0.3.0"
num-bigint = "=0.4.8"
serde = { version = "=1.0.229", features = ["derive"] }
serde-wasm-bindgen = "=0.6.5"
solana-zk-sdk = "=2.3.13"
solana-zk-token-sdk = "=2.3.13"
thiserror = "=1.0.69"
wasm-bindgen = "=0.2.129"
