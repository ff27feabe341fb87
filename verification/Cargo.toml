[package]
name = "miden_client_core"
version = "0.1.0"
edition = "2021"
publish = false

[dependencies]
miden-assembly = "=0.19.1"
rand = "=0.9.5"
