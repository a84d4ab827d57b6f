[package]
name = "diman"
version = "0.1.0"
edition = "2021"
publish = false

[dependencies]
num-traits = "0.2"
syn = { version = "2", features = ["full", "extra-traits"] }
proc-macro2 = "1"
fastnum = "*"
