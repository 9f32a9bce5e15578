[package]
name = "antispam"
version = "0.1.0"
edition = "2021"
publish = false

[dependencies]
teloxide = { version = "=0.17.0", features = ["macros"] }
tokio = { version = "=1.53.2", features = ["full"] }
dptree = "=0.5.1"
tracing = "=0.1.44"
tracing-subscriber = "=0.3.23"
once_cell = "=1.21.4"
takecell = "=0.1.1"
