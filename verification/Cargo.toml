[package]
name = "proper_crypto"
version = "0.1.0"
edition = "2021"
publish = false
