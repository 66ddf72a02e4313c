[package]
name = "rake"
version = "0.1.0"
edition = "2021"
publish = false

[dependencies]
clap = { version = "4", features = ["derive"] }
colored = "2"
crossbeam = "0.8"
indicatif = "0.17"
reqwest = { version = "0.12", features = ["blocking"] }
