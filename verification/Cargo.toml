[package]
name = "wizctl"
version = "0.1.0"
edition = "2021"
publish = false

[dependencies]
clap = { version = "4", features = ["derive"] }
tabled = "*"

[dev-dependencies]
serde_json = "1"
