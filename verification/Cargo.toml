[package]
name = "filehandler"
version = "0.1.0"
edition = "2021"
publish = false

[dependencies]
bincode = "1.3"
leb128 = "0.2"
lz4_flex = "0.11"
serde = { version = "1", features = ["derive"] }
serde_json = "1"
wellen = { version = "*", features = ["serde1"] }
