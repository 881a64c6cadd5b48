[package]
name = "mmo_launcher"
version = "0.1.0"
edition = "2021"
publish = false

[dependencies]
bzip2 = "0.4"
crc32fast = "1"
flate2 = "1"
reqwest = { version = "0.12", default-features = false, features = ["blocking", "rustls-tls"] }
rusqlite = { version = "0.32", features = ["bundled"] }
serde = { version = "1", features = ["derive"] }
serde_json = "1"
tar = "0.4"
zip = { version = "2", default-features = false, features = ["deflate"] }
