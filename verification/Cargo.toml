[package]
name = "petitc"
version = "0.1.0"
edition = "2021"
publish = false

[dependencies]
beans = "*"
colored = "*"
clap = { version = "4", features = ["derive"] }
thiserror = "*"
