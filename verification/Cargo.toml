[package]
name = "fhe_boolean"
version = "0.1.0"
edition = "2021"
publish = false

[dependencies]
concrete-fft = "*"
crossterm = "0.25"
tui = "0.19"

[dev-dependencies]
rand = "0.8"
rand_chacha = "0.3"
