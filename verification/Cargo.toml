[package]
name = "tui_watcher"
version = "0.1.0"
edition = "2021"
publish = false

[dependencies]
serde_json = "1"
scraper = "*"
reqwest = { version = "*", default-features = false, features = ["rustls-tls"] }
lettre = { version = "0.11", default-features = false, features = ["smtp-transport", "builder", "hostname", "pool", "rustls-tls"] }
tokio = { version = "1", features = ["macros", "rt-multi-thread", "time"] }
clap = { version = "4", features = ["derive"] }
daemonize = "0.5"
dotenv = "0.15"
