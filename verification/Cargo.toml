[package]
name = "suckless_hn"
version = "0.1.0"
edition = "2021"
publish = false

[dependencies]
regex = "=1.13.1"
serde = { version = "=1.0.229", features = ["derive"] }
serde_json = "=1.0.151"
rusqlite = { version = "=0.40.2", features = ["bundled"] }
reqwest = { version = "=0.13.5", default-features = false, features = ["json", "rustls"] }
tokio = { version = "=1.53.2", features = ["rt-multi-thread", "macros", "fs"] }
futures = "=0.3.34"
handlebars = "=6.4.4"
rust-s3 = { version = "=0.38.0", default-features = false, features = ["tokio-rustls-tls", "tags", "fail-on-err"] }
log = "=0.4.34"
env_logger = "=0.11.11"
dotenv = "=0.15.0"
