[package]
name = "kirbyscan"
version = "0.1.0"
edition = "2021"
publish = false

[dependencies]
scraper = "*"
reqwest = { version = "*", default-features = false, features = ["socks"] }
tokio = { version = "*", features = ["rt-multi-thread"] }
rayon = "*"
clap = "*"
ipnetwork = "*"
serde = { version = "*", features = ["derive"] }
serde_json = "*"
