[package]
name = "fallbaq"
version = "0.1.0"
edition = "2021"
publish = false

[dependencies]
actix-files = "*"
actix-rt = "*"
actix-web = "*"
clap = "*"
colored = "*"
