[package]
name = "message_relay"
version = "0.1.0"
edition = "2021"
publish = false

[dependencies]
bcrypt = "=0.19.3"
serde = { version = "=1.0.229", features = ["derive"] }
serde_json = "=1.0.151"
chrono = { version = "=0.4.45", features = ["serde"] }
actix = "=0.13.5"
actix-web = "=4.15.0"
actix-web-actors = "=4.3.1"
actix-identity = "=0.9.0"
actix-session = { version = "=0.11.0", features = ["cookie-session"] }
