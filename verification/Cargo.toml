[package]
name = "bigneon"
version = "0.1.0"
edition = "2021"
publish = false

[dependencies]
chrono = { version = "0.4", features = ["serde"] }
uuid = { version = "1", features = ["v4", "serde"] }
serde = { version = "1", features = ["derive"] }
serde_json = "1"
validator = "*"
log = "0.4"
futures = "0.3"
actix-web = "4"
diesel = { version = "2", features = ["postgres", "chrono", "uuid"] }
r2d2 = "0.8"
r2d2_redis = "*"
