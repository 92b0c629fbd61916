[package]
name = "unwrap_qr"
version = "0.1.0"
edition = "2021"
publish = false

[dependencies]
indexmap = "*"
image = { version = "*", default-features = false, features = ["png", "jpeg"] }
queens-rock = "*"
uuid = { version = "*", features = ["v4"] }
chrono = { version = "*", default-features = false, features = ["clock"] }
lapin = "*"
tokio = { version = "*", features = ["macros", "rt-multi-thread"] }
actix-web = { version = "*", default-features = false }
actix-multipart = "*"
futures-util = "*"
log = "*"
env_logger = { version = "*", default-features = false }
