[package]
name = "novel_reader"
version = "0.1.0"
edition = "2021"
publish = false

[dependencies]
figlet-rs = "*"
ratatui = "*"
reqwest = { version = "*", default-features = false }
tokio = { version = "*", features = ["macros", "rt-multi-thread"] }
scraper = "*"
dialoguer = { version = "*", features = ["fuzzy-select"] }
color-eyre = "*"
