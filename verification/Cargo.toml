[package]
name = "xalps"
version = "0.1.0"
edition = "2021"
publish = false

[dependencies]
chrono = "=0.4.45"
clearscreen = "=2.0.1"
cli-table = "=0.4.9"
derive_more = "=0.99.20"
isocountry = "=0.3.2"
quick-protobuf = "=0.8.1"
reqwest = { version = "=0.11.27", default-features = false, features = ["json", "rustls-tls"] }
serde = { version = "=1.0.229", features = ["derive"] }
tokio = { version = "=1.54.1", features = ["macros", "rt-multi-thread"] }
