[package]
name = "pera"
version = "0.1.0"
edition = "2021"
publish = false

[dependencies]
clap = { version = "=4.6.7", features = ["derive", "env"] }
dotenvy = "=0.15.7"
serde_json = "=1.0.154"
wit-parser = "=0.263.0"
