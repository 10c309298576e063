[package]
name = "mtime_tools"
version = "0.1.0"
edition = "2021"
publish = false

[dependencies]
chrono = { version = "0.4", default-features = false, features = ["std", "now"] }
dashmap = "6"
indicatif = "0.17"
rayon = "1"
