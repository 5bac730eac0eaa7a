[package]
name = "pushup_challenge"
version = "0.1.0"
edition = "2021"
publish = false

[dependencies]
chrono = "=0.4.45"
frankenstein = { version = "=0.52.1", features = ["client-ureq"] }
tokio = { version = "=1.54.1", features = ["macros", "rt-multi-thread", "sync", "time"] }
