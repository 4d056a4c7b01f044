[package]
name = "http_storm"
version = "0.1.0"
edition = "2021"
publish = false

[dependencies]
chrono = "0.4"
clap = "2.33"
reqwest = { version = "0.10", default-features = false }
termion = "1.5"
tokio = { version = "0.2", features = ["full"] }
tui = "0.8"
