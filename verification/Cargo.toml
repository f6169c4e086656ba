[package]
name = "hosts_manager"
version = "0.1.0"
edition = "2021"
publish = false

[dependencies]
dirs = "5"
iced = { version = "0.13", default-features = false, features = ["tiny-skia"] }
rfd = { version = "0.15", default-features = false, features = ["xdg-portal", "tokio"] }
rusqlite = "0.32"
serde = { version = "1", features = ["derive"] }
serde_json = "1"
trust-dns-resolver = { version = "0.23", default-features = false, features = ["tokio-runtime"] }
uuid = { version = "1", features = ["v4"] }
