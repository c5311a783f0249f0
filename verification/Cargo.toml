[package]
name = "memebot_backend"
version = "0.1.0"
edition = "2021"
publish = false

[dependencies]
diesel = { version = "1.4", features = ["postgres", "chrono", "r2d2"] }
chrono = "0.4"
dotenv = "0.15"
lazy_static = "1.4"
