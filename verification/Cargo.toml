[package]
name = "room_light"
version = "0.1.0"
edition = "2021"
publish = false

[dependencies]
anyhow = "=1.0.104"
hyper = { version = "=0.14.32", features = ["client", "http1", "tcp"] }
hyper-tls = "=0.5.0"
log = "=0.4.34"
rppal = "=0.22.1"
ruma = { version = "=0.9.4", features = ["client-api-c", "client-ext-client-api", "client-hyper-native-tls", "events"] }
serde = { version = "=1.0.229", features = ["derive"] }
serde_json = "=1.0.151"
tokio = { version = "=1.53.2", features = ["macros", "rt"] }
