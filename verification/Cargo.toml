[package]
name = "shopping_list"
version = "0.1.0"
edition = "2021"
publish = false

[dependencies]
actix-web = { version = "=4.18.1", default-features = false, features = ["macros"] }
env_logger = "=0.11.11"
log = "=0.4.34"
rusqlite = "=0.40.2"
serde = { version = "=1.0.229", features = ["derive"] }
