[package]
name = "canopy"
version = "0.1.0"
edition = "2021"
publish = false

[dependencies]
crossterm = "0.23"
rhai = "1"
scopeguard = "1"
textwrap = "0.15"
