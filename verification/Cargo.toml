[package]
name = "schedule_queue"
version = "0.1.0"
edition = "2021"
publish = false

[dependencies]
priority-queue = "=2.7.0"
parking_lot = "=0.12.5"
tokio = { version = "=1.54.1", features = ["sync", "time", "macros", "rt"] }
