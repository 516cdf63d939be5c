[package]
name = "stateless_validation"
version = "0.1.0"
edition = "2021"
publish = false

[dependencies]
base64 = "0.21"
lru = "0.7"
rayon = "1"
tracing = "0.1"
