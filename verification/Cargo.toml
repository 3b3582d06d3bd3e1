[package]
name = "wschat"
version = "0.1.0"
edition = "2021"
publish = false

[dependencies]
actix = "=0.13.5"
actix-web = { version = "=4.18.1", default-features = false, features = ["macros", "ws"] }
actix-web-actors = "=4.3.1"
env_logger = "=0.11.11"
log = "=0.4.34"
serde_json = "=1.0.154"
uuid = { version = "=1.29.0", features = ["v4"] }
