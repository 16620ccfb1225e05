[package]
name = "cl_wordle"
version = "0.1.0"
edition = "2021"
publish = false

[dependencies]
time = { version = "0.3", features = ["local-offset"] }
crossterm = "*"
termion = "*"
eyre = "*"
color-eyre = "*"
owo-colors = "*"
