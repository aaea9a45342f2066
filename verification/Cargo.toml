[package]
name = "organise"
version = "0.1.0"
edition = "2021"
publish = false

[dependencies]
chrono = "0.4"
actix-web = "4"
actix-cors = "0.7"
mongodb = "3"
serde = { version = "1", features = ["derive"] }
futures-util = "0.3"
reqwest = { version = "0.12", default-features = false }
