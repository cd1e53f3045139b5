[package]
name = "airtable"
version = "0.1.0"
edition = "2021"
publish = false

[dependencies]
failure = "0.1"
reqwest = { version = "0.12", default-features = false, features = ["blocking", "json"] }
serde = { version = "1", features = ["derive"] }
serde_json = "1"
