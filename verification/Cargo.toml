[package]
name = "cleverhans"
version = "0.1.0"
edition = "2021"
publish = false

[dependencies]
serde = { version = "1", features = ["derive"] }
serde_json = "1"
toml = "*"
hmac = "*"
sha2 = "*"
hex = "*"
http = "*"
url = "2"
reqwest = { version = "*", default-features = false, features = ["json"] }
tokio = { version = "1", features = ["rt", "macros", "sync", "time"] }
uuid = { version = "1", features = ["v4"] }
futures-util = "*"
async-trait = "*"
thiserror = "*"
