[package]
name = "mml_parser"
version = "0.1.0"
edition = "2021"
publish = false

[dependencies]
anyhow = "=1.0.104"
pest = "=2.9.4"
pest_derive = "=2.9.4"

[dev-dependencies]
pest_meta = "=2.9.4"
pest_vm = "2"
