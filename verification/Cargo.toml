[package]
name = "service_discovery"
version = "0.1.0"
edition = "2021"
publish = false

[dependencies]
async-trait = "*"
pingora = { version = "*", features = ["lb"] }
