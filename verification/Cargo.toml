[package]
name = "comic_notifier"
version = "0.1.0"
edition = "2021"
publish = false

[dependencies]
scraper = "*"
reqwest = { version = "0.11", default-features = false, features = ["blocking", "rustls-tls"] }
rusoto_core = { version = "0.48", default-features = false, features = ["rustls"] }
rusoto_dynamodb = { version = "0.48", default-features = false, features = ["rustls"] }
rusoto_ses = { version = "0.48", default-features = false, features = ["rustls"] }
bytes = "*"
tokio = { version = "1", default-features = false, features = ["rt"] }

[dev-dependencies]
base64 = "*"
