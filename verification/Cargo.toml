[package]
name = "r_resources"
version = "0.1.0"
edition = "2021"
publish = false

[dependencies]
bigdecimal = "*"
