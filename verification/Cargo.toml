[package]
name = "splix"
version = "0.1.0"
edition = "2021"
publish = false

[dependencies]
clap = { version = "4", features = ["derive"] }
image = "0.25"
rayon = "1"
walkdir = "2"
