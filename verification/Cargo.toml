[package]
name = "as_witx"
version = "0.1.0"
edition = "2021"
publish = false

[dependencies]
heck = "*"
itertools = "*"
witx = "*"
clap = "*"
