[package]
name = "blackjack"
version = "0.1.0"
edition = "2021"
publish = false

[dependencies]
rand = "0.8"
macroquad = "0.4"
tokio = { version = "1", features = ["sync"] }
futures = "0.3"
lazy_static = "1"
