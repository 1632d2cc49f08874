[package]
name = "harvard_kyoto"
version = "0.1.0"
edition = "2021"
publish = false

[dependencies]
unicode-normalization = "0.1"
clap = { version = "3.2", features = ["derive"] }

[dev-dependencies]
regex = "1"
