[package]
name = "rustmix_wave"
version = "0.1.0"
edition = "2021"
publish = false

[dependencies]
anyhow = "1"
embedded-graphics = "0.8"
embedded-hal = "1"
embedded-svc = "0.28"
fontdue = "0.9"
log = "0.4"
