[package]
name = "tellbot"
version = "0.1.0"
edition = "2021"
publish = false

[dependencies]
hyper = "0.10"
regex = "1"
serde_json = "1"
