[package]
name = "fx_core"
version = "0.1.0"
edition = "2021"
publish = false

[dependencies]
kvs = "=0.0.6"
