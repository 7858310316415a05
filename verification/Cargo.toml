[package]
name = "breakrs"
version = "0.1.0"
edition = "2021"
publish = false

[dependencies]
clap = { version = "4", features = ["derive"] }
clap_complete = "4"
dirs = "*"
fs2 = "0.4"
notify-rust = "4"
serde = { version = "1", features = ["derive"] }
serde_json = "1"
sysinfo = "*"
time = { version = "0.3", features = ["serde"] }
uuid = { version = "1", features = ["v4", "serde"] }
