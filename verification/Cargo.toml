[package]
name = "seal_updater"
version = "0.1.0"
edition = "2021"
publish = false

[dependencies]
zip = "*"
flate2 = "*"
tar = "*"
clap = { version = "*", features = ["derive"] }
colored = "*"
