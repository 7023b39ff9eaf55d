[package]
name = "twitvault"
version = "0.1.0"
edition = "2021"
publish = false

[dependencies]
regex = "*"
url = "*"
chrono = "*"
serde = { version = "*", features = ["derive"] }
serde_json = "*"
egg-mode = "*"
mime = "*"
tokio = { version = "*", features = ["rt-multi-thread", "macros", "sync", "time"] }
reqwest = "*"
clap = "*"
directories-next = "*"
