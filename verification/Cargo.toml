[package]
name = "polymod"
version = "0.1.0"
edition = "2021"
publish = false

[dependencies]
mixr = "*"
clap = { version = "*", features = ["derive"] }
