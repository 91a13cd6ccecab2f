[package]
name = "dtn_chat"
version = "0.1.0"
edition = "2021"
publish = false

[dependencies]
hex = "0.4"
serde = { version = "1", features = ["derive"] }
serde_json = "1"
tui = "0.19"
crossterm = "0.25"
unicode-width = "0.1"
