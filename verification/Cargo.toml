[package]
name = "greeder"
version = "0.1.0"
edition = "2021"
publish = false

[dependencies]
mailparse = "=0.18.0"
url = "=2.5.8"
uuid = { version = "=1.29.0", features = ["v4", "v5"] }
rss = "=2.1.2"
handlebars = "=6.4.4"
serde = { version = "=1.0.229", features = ["derive"] }
serde_json = "=1.0.154"
time = "=0.1.45"
log = "=0.4.35"
readability = { version = "=0.3.0", default-features = false }
