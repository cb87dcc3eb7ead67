[package]
name = "me"
version = "0.1.0"
edition = "2021"
publish = false

[dependencies]
argon2 = "*"
base64 = "*"
blake3 = "*"
chacha20poly1305 = "*"
chrono = "*"
getrandom = "*"
libc = "*"
os_info = "*"
reqwest = { version = "*", features = ["blocking", "json"] }
serde = { version = "*", features = ["derive"] }
serde_json = "*"
toml = "*"
