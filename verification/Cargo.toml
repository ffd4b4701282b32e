[package]
name = "finality_aleph"
version = "0.1.0"
edition = "2021"
publish = false

[dependencies]
schnorrkel = "*"
