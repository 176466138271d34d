[package]
name = "peapod"
version = "0.1.0"
edition = "2021"
publish = false

[dependencies]
bitvec = "1"
proc-macro2 = "1"
quote = "1"
syn = { version = "1", features = ["visit"] }
proc-macro-error = "1"
