[package]
name = "config_service"
version = "0.1.0"
edition = "2021"
publish = false

[dependencies]
actix = "=0.8.3"
actix-web = "=1.0.9"
chrono = "=0.4.19"
diesel = { version = "=1.4.8", features = ["mysql", "r2d2"] }
dotenv = "=0.15.0"
failure = "=0.1.8"
futures = "=0.1.31"
json = "=0.12.4"
log = "=0.4.34"
r2d2 = "=0.8.10"
serde = { version = "=1.0.229", features = ["derive"] }
