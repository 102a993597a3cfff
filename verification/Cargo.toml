[package]
name = "slidedeck"
version = "0.1.0"
edition = "2021"
publish = false

[dependencies]
pulldown-cmark = "=0.13.4"
clap = { version = "=4.6.7", features = ["derive"] }
