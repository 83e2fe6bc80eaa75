[package]
name = "decoder"
version = "0.1.0"
edition = "2021"
publish = false

[dependencies]
chacha20poly1305 = "=0.10.1"
ed25519-dalek = "=2.2.0"
heapless = "=0.8.0"
max7800x-hal = "=0.7.1"
postcard = { version = "=1.1.3", features = ["alloc"] }
rand = "=0.9.5"
zeroize = "=1.9.1"
