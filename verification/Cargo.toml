[package]
name = "ir-assert"
version = "0.1.0"
edition = "2021"
publish = false

[dependencies]
proc-macro2 = "1"
syn = { version = "2", features = ["full"] }
template-quote = "*"
proc-macro-error2 = "2"
