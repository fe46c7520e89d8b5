[package]
name = "ansi_cut"
version = "0.1.0"
edition = "2021"

[dependencies]
ansi-parser = "0.8"
