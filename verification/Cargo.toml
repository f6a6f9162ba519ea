[package]
name = "sofos"
version = "0.1.0"
edition = "2021"
publish = false

[dependencies]
ansi-to-tui = "=8.0.1"
arboard = { version = "=3.7.0", default-features = false }
chrono = "=0.4.45"
colored = "=3.1.1"
crossterm = "=0.29.0"
libc = "=0.2.191"
os_pipe = "=1.2.3"
rand = "=0.10.3"
ratatui = { version = "=0.30.2", features = ["unstable-rendered-line-info"] }
reedline = "=0.52.1"
serde = { version = "=1.0.229", features = ["derive"] }
serde_json = "=1.0.154"
syntect = { version = "=5.3.0", default-features = false, features = ["default-fancy"] }
tokio = { version = "=1.54.1", features = ["rt", "rt-multi-thread", "sync", "time", "macros"] }
tracing = "=0.1.44"
tui-textarea = "=0.6.1"
unicode-width = "=0.2.3"
