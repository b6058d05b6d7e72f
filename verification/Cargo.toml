[package]
name = "hootie"
version = "0.1.0"
edition = "2021"
publish = false

[dependencies]
termion = "*"
reqwest = { version = "*", default-features = false, features = ["blocking"] }
structopt = "*"
