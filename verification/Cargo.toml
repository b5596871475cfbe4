[package]
name = "blockpaint"
version = "0.1.0"
edition = "2021"
publish = false

[dependencies]
bracket-geometry = "*"
crossterm = "*"
