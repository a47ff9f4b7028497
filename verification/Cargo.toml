[package]
name = "nvsc"
version = "0.1.0"
edition = "2021"
publish = false

[dependencies]
clap = "4"
prettytable-rs = { version = "0.10", default-features = false }
