[package]
name = "userapputil"
version = "0.1.0"
edition = "2021"
publish = false

[dependencies]
uuid = "*"
btleplug = "*"
elf = "*"
structopt = "*"
tokio = { version = "*", features = ["rt", "macros", "time"] }
