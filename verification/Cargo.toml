[package]
name = "rqr"
version = "0.1.0"
edition = "2021"
publish = false

[dependencies]
bitvec = "1.0.1"
regex = "1"
clap = "2.34"
