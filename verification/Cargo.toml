[package]
name = "qld"
version = "0.1.0"
edition = "2021"
publish = false

[dependencies]
foldhash = "*"
hashbrown = "*"
rayon = "*"
