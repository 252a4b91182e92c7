[package]
name = "mtbfile_sender"
version = "0.1.0"
edition = "2021"
publish = false

[dependencies]
axum = "*"
bcrypt = "*"
clap = { version = "*", features = ["derive"] }
rdkafka = "*"
tokio = { version = "*", features = ["rt-multi-thread", "macros", "net"] }
uuid = { version = "*", features = ["v4"] }
