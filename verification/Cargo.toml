[package]
name = "usbwatch"
version = "0.1.0"
edition = "2021"
publish = false

[dependencies]
anyhow = "*"
clap = { version = "4", features = ["derive"] }
once_cell = "*"
serde = { version = "1", features = ["derive"] }
serde_yaml = "*"
termcolor = "*"
tokio = { version = "1", features = ["rt", "sync", "signal", "process", "io-util", "macros"] }
tokio-stream = "*"
tokio-udev = "*"
yaml-rust = "*"
