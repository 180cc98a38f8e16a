[package]
name = "spreadsheet_to_json"
version = "0.1.0"
edition = "2021"
publish = false

[dependencies]
calamine = { version = "0.27", features = ["dates"] }
chrono = "=0.4.45"
clap = { version = "=4.6.7", features = ["derive"] }
csv = "=1.4.0"
heck = "=0.5.0"
indexmap = { version = "=2.14.2", features = ["serde"] }
serde = { version = "=1.0.229", features = ["derive"] }
serde_json = { version = "=1.0.154", features = ["preserve_order"] }
simple-string-patterns = "0.3.17"
tokio = { version = "=1.54.1", features = ["rt", "rt-multi-thread", "sync", "macros"] }
