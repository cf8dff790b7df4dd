[package]
name = "jwc"
version = "0.1.0"
edition = "2021"
publish = false

[dependencies]
clap = { version = "=4.6.7", features = ["derive"] }
prettytable-rs = "=0.10.0"
rayon = "=1.12.0"
unicode-width = "=0.1.14"
