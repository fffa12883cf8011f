[package]
name = "gsettings_gen"
version = "0.1.0"
edition = "2021"
publish = false

[dependencies]
heck = "*"
syn = "*"
proc-macro2 = "*"
quote = "*"
