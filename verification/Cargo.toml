[package]
name = "libwebnovel"
version = "0.1.0"
edition = "2021"
publish = false

[dependencies]
regex = "*"
scraper = "*"
chrono = "*"
reqwest = { version = "*", default-features = false, features = ["blocking"] }
diff = "*"
