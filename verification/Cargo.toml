[package]
name = "survive2020"
version = "0.1.0"
edition = "2021"
publish = false

[dependencies]
rand = "0.7"
savefile = "*"
savefile-derive = "*"
