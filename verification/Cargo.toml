[package]
name = "dero"
version = "0.1.0"
edition = "2021"
publish = false

[dependencies]
argonaut = "=0.2.0"
termion = "=4.0.6"
