[package]
name = "radiors"
version = "0.1.0"
edition = "2021"
publish = false

[dependencies]
num = "*"
rtlsdr_mt = "*"
rustfft = "4.0"
spsc-bip-buffer = "*"
termion = "1.5"
tui = "0.9"
