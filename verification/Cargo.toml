[package]
name = "docstore"
version = "0.1.0"
edition = "2021"
publish = false

[dependencies]
actix-web = "4"
mongodb = "3"
bson = "2"
serde = { version = "1", features = ["derive"] }
serde_json = "1"
futures = "0.3"
dotenv = "0.15"
env_logger = "0.11"
