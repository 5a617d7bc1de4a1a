[package]
name = "planet_materializer"
version = "0.1.0"
edition = "2021"
publish = false

[dependencies]
argh = "*"
quick-xml = "*"
regex = "*"
yaml-rust2 = "*"
