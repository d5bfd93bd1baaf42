[package]
name = "pcp"
version = "0.1.0"
edition = "2021"
publish = false

[dependencies]
gcollections = "=1.6.0"
intervallum = "*"
