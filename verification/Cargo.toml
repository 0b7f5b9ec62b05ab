[package]
name = "aish"
version = "0.1.0"
edition = "2021"
publish = false

[dependencies]
clap = "4"
dotenv = "0.15"
pulldown-cmark = "0.9"
regex = "1"
reqwest = { version = "0.11", features = ["json"] }
rustyline = "10"
serde = { version = "1", features = ["derive"] }
serde_json = "1"
tokio = { version = "1", features = ["full"] }
