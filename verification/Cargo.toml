[package]
name = "risp_lib"
version = "0.1.0"
edition = "2021"
publish = false

[dependencies]
anyhow = "*"
rustyline = "*"
rustyline-derive = "*"
thiserror = "*"
