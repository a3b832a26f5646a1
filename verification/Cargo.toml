[package]
name = "crontabcheck"
version = "0.1.0"
edition = "2021"
publish = false

[dependencies]
nom = { version = "3", features = ["verbose-errors"] }
clap = "2"
