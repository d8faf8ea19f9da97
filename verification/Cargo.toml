[package]
name = "rattlesnake"
version = "0.1.0"
edition = "2021"
publish = false

[dependencies]
rand = "0.9"
crossterm = "0.28"
log = "0.4"
simplelog = "0.12"
macroquad = "0.4"
