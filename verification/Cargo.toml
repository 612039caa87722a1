[package]
name = "ticket_booking"
version = "0.1.0"
edition = "2021"
publish = false

[dependencies]
uuid = { version = "1", features = ["v4", "serde"] }
serde = { version = "1", features = ["derive"] }
serde_json = "1"
log = "0.4"
futures = "0.3"
tokio = { version = "1", features = ["macros", "rt-multi-thread"] }
warp = "0.3"
rdkafka = "0.29"
sqlx = { version = "0.6", default-features = false, features = ["runtime-tokio-rustls", "postgres"] }
