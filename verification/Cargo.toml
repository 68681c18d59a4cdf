[package]
name = "tui_logger"
version = "0.1.0"
edition = "2021"
publish = false

[dependencies]
chrono = "0.4"
lazy_static = "1"
log = "0.4"
parking_lot = "0.12"
ratatui = { version = "0.29", default-features = false }
tracing = "0.1"
tracing-subscriber = "0.3"
