[package]
name = "domaincards"
version = "0.1.0"
edition = "2021"
publish = false

[dependencies]
url = "*"
rand = "*"
axum = { version = "*", features = ["ws"] }
tokio = { version = "*", features = ["macros", "rt-multi-thread", "sync", "time", "signal", "net"] }
serde = { version = "*", features = ["derive"] }
serde_json = "*"
base64 = "*"
