[package]
name = "secret_store"
version = "0.1.0"
edition = "2021"
publish = false

[dependencies]
serde_json = "=1.0.154"
serde_urlencoded = "=0.6.1"
serde = { version = "=1.0.229", features = ["derive"] }
hyper = "=0.12.36"
futures = "=0.1.31"
mongodb = "=0.3.10"
bson = "=0.12.3"
r2d2 = "=0.8.10"
r2d2-mongodb = "=0.1.3"
