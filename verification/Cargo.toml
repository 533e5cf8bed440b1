[package]
name = "storage_traits"
version = "0.1.0"
edition = "2021"
publish = false

[dependencies]
nb = "1"
