[package]
name = "codex_quota_ball"
version = "0.1.0"
edition = "2021"
publish = false

[dependencies]
chrono = "0.4"
serde = { version = "1", features = ["derive"] }
serde_json = "1"
dirs = "5"
raw-window-handle = "0.6"
x11rb = { version = "0.13", features = ["randr", "shape"] }
