[package]
name = "playlog"
version = "0.1.0"
edition = "2021"
publish = false

[dependencies]
chrono = "*"
diesel = { version = "*", features = ["postgres", "chrono"] }
dotenv = "*"
memcache = "*"
serde = { version = "*", features = ["derive"] }
serde_json = "*"
