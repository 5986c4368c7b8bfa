[package]
name = "item_service"
version = "0.1.0"
edition = "2021"
publish = false

[dependencies]
dotenv = "0.15"
futures = "0.3"
mongodb = "2"
rocket = { version = "0.5", features = ["json"] }
