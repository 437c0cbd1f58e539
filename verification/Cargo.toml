[package]
name = "event_tracker"
version = "0.1.0"
edition = "2021"
publish = false

[dependencies]
actix-governor = "*"
actix-web = { version = "4", default-features = false, features = ["macros"] }
chrono = { version = "0.4", features = ["serde"] }
log = "0.4"
log4rs = "1"
serde = { version = "1", features = ["derive"] }
serde_json = "1"
thiserror = "*"
uuid = { version = "1", features = ["v4", "serde"] }
