[package]
name = "app_service"
version = "0.1.0"
edition = "2021"
publish = false

[dependencies]
freedesktop_entry_parser = "1"
freedesktop-icon-lookup = "0.1"
xdgkit = "*"
serde = { version = "1", features = ["derive"] }
serde_json = "1"
log = "0.4"
