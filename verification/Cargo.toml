[package]
name = "az_objectstream"
version = "0.1.0"
edition = "2021"
publish = false

[dependencies]
uuid = "1"
hex = "0.4"
serde = { version = "1", features = ["derive"] }
serde_json = "1"
quick-xml = { version = "*", features = ["serialize"] }
thiserror = "2"
