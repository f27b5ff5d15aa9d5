[package]
name = "purp_value"
version = "0.1.0"
edition = "2021"
publish = false

[dependencies]
chrono = "0.4"
syn = "2"
quote = "1"
proc-macro2 = "1"
