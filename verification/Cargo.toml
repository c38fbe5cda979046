[package]
name = "token_exchange"
version = "0.1.0"
edition = "2021"
publish = false

[dependencies]
parity-scale-codec = "=3.7.5"
frame-support = "=41.0.2"
frame-system = "=41.0.2"
orml-traits = "=1.5.0"
orml-utilities = "=1.5.0"
sp-runtime = "=42.0.0"
