[package]
name = "full_time_spond_sync"
version = "0.1.0"
edition = "2021"
publish = false

[dependencies]
chrono = { version = "0.4", features = ["serde"] }
chrono-tz = "*"
clap = { version = "4", features = ["derive"] }
figment = { version = "0.10", features = ["json"] }
itertools = "*"
reqwest = { version = "*", default-features = false, features = ["json", "rustls-tls"] }
rust_decimal = { version = "1", features = ["serde"] }
scraper = "*"
serde = { version = "1", features = ["derive"] }
tokio = { version = "1", features = ["macros", "rt-multi-thread"] }
