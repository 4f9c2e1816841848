[package]
name = "chaostomato"
version = "0.1.0"
edition = "2021"
publish = false

[dependencies]
chrono = "0.4"
futures-util = "0.3"
tbot = "0.6"
tokio = { version = "0.2", features = ["macros", "rt-threaded", "stream", "sync", "time"] }
