[package]
name = "jay_analyzer"
version = "0.1.0"
edition = "2021"
publish = false

[dependencies]
evalexpr = "=8.1.0"
tabled = "=0.10.0"
