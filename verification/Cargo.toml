[package]
name = "apollo_values"
version = "0.1.0"
edition = "2021"
publish = false

[dependencies]
apollo-parser = "*"
