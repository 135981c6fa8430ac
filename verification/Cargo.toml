[package]
name = "three-mass-problem"
version = "0.1.0"
edition = "2021"

[dependencies]
macroquad = "0.4"
