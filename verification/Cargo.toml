[package]
name = "insta_fun"
version = "0.1.0"
edition = "2021"
publish = false

[dependencies]
fundsp = "*"
plotters = "*"
petgraph = "*"
insta = "*"
