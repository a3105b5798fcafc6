[package]
name = "command_life"
version = "0.1.0"
edition = "2021"
publish = false

[dependencies]
rand = "*"
crossterm = "*"
anyhow = "*"
crossbeam = "*"
log = "*"
simple-logging = "*"
