[package]
name = "dzsm"
version = "0.1.0"
edition = "2021"
publish = false

[dependencies]
anyhow = "1"
chrono = "0.4"
clap = { version = "4", features = ["derive"] }
curl = "0.4"
scraper = "*"
serde = { version = "1", features = ["derive"] }
term_size = "0.3"
toml = "*"
zip = { version = "*", default-features = false, features = ["deflate"] }
