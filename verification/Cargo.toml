[package]
name = "mymathboard"
version = "0.1.0"
edition = "2021"
publish = false

[dependencies]
evalexpr = "11"
regex = "1"
bincode = "1"
