[package]
name = "jellyfin_rpc"
version = "0.1.0"
edition = "2021"
publish = false

[dependencies]
url = "*"
serde = { version = "*", features = ["derive"] }
serde_json = "*"
reqwest = { version = "*", default-features = false, features = ["blocking", "multipart", "json"] }
log = "*"
colored = "*"
