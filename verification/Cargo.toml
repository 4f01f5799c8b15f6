[package]
name = "keyz"
version = "0.1.0"
edition = "2021"
publish = false

[dependencies]
crossterm = "0.28"
hound = "3.5"
rand = "0.8"
ratatui = "0.29"
rodio = "0.19"
rustfft = "6.2"
