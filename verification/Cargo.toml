[package]
name = "blackjack"
version = "0.1.0"
edition = "2021"
publish = false

[dependencies]
rand = "0.8"
structopt = "0.3"
tokio = { version = "1", features = ["macros", "rt-multi-thread"] }
eyre = "0.6"
