[package]
name = "logos_ropey"
version = "0.1.0"
edition = "2021"
publish = false

[dependencies]
ropey = "*"
logos = "*"
ref-cast = "*"
