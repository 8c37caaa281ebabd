[package]
name = "toggle_ro"
version = "0.1.0"
edition = "2021"
publish = false

[dependencies]
clap = "4"
gptman = { version = "1", default-features = false }
