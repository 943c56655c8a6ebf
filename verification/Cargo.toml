[package]
name = "hls_reaper"
version = "0.1.0"
edition = "2021"
publish = false

[dependencies]
anyhow = "*"
globset = "*"
hls_m3u8 = "*"
tokio = { version = "*", features = ["rt-multi-thread", "macros", "time", "fs"] }
tracing = "*"
tracing-subscriber = { version = "*", features = ["env-filter"] }
walkdir = "*"
