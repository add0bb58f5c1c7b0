[package]
name = "speed_browser_system"
version = "0.1.0"
edition = "2021"
publish = false

[dependencies]
uuid = { version = "1", features = ["v4"] }
serde = { version = "1", features = ["derive"] }
serde_json = "1"
sled = "0.34"
sysinfo = "0.32"
tokio = { version = "1", features = ["full"] }
warp = "0.3"
dirs = "5"
