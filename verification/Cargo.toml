[package]
name = "tap_notes"
version = "0.1.0"
edition = "2021"
publish = false

[dependencies]
unicode-segmentation = "=1.13.3"
rusqlite = { version = "=0.40.2", features = ["bundled"] }
uuid = { version = "=1.27.0", features = ["v4", "serde"] }
dirs = "=7.0.0"
serde = { version = "=1.0.229", features = ["derive"] }
