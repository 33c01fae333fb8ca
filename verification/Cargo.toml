[package]
name = "c8_disasm_lib"
version = "0.1.0"
edition = "2021"
publish = false

[dependencies]
structopt = "0.3"
