[package]
name = "aob"
version = "0.1.0"
edition = "2021"
publish = false

[dependencies]
memchr = "*"
ariadne = "*"
proc-macro2 = "*"
quote = "*"
syn = { version = "*", features = ["full"] }
