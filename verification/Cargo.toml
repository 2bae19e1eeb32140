[package]
name = "eggcc"
version = "0.1.0"
edition = "2021"
publish = false

[dependencies]
egglog = "=0.2.0"
clap = { version = "=4.6.7", features = ["derive"] }
