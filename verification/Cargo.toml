[package]
name = "laminar"
version = "0.1.0"
edition = "2021"
publish = false

[dependencies]
sp-arithmetic = { version = "2.0.0", default-features = false }
