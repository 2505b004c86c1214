[package]
name = "snake"
version = "0.1.0"
edition = "2021"
publish = false

[dependencies]
anyhow = "1"
crossterm = "*"
flume = "*"
rand = "0.8"
structopt = "0.3"
