[package]
name = "discord_bot"
version = "0.1.0"
edition = "2021"
publish = false

[dependencies]
regex = "1"
scraper = "*"
serenity = "0.10"
tokio = { version = "1", features = ["full"] }
reqwest = "0.11"
clokwerk = "0.4"
ssh2 = "0.9"
serde = { version = "1", features = ["derive"] }
serde_json = "1"
