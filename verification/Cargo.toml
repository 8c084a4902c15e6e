[package]
name = "onshape_core"
version = "0.1.0"
edition = "2021"
publish = false

[dependencies]
base64 = "0.22"
url = "2"
secrecy = "0.10"
chrono = { version = "0.4", default-features = false, features = ["std", "clock"] }
serde = { version = "1", features = ["derive"] }
serde_json = "1"
http = "1"
oauth2 = { version = "5", default-features = false }
reqwest = { version = "0.12", default-features = false, features = ["multipart"] }
rmcp = { version = "*", default-features = false, features = ["server"] }
schemars = "1"
thiserror = "2"
