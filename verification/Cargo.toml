[package]
name = "komari_monitor_rs"
version = "0.1.0"
edition = "2021"
publish = false

[dependencies]
futures = "0.3"
libc = "0.2"
log = "0.4"
miniserde = "*"
palc = "*"
sysinfo = "*"
time = { version = "0.3", features = ["local-offset"] }
tokio = { version = "1", features = ["fs", "io-util", "macros", "net", "rt-multi-thread", "sync", "time"] }
tokio-tungstenite = "*"
win-toast-notify = "*"
