[package]
name = "collab"
version = "0.1.0"
edition = "2021"
publish = false

[dependencies]
axum = "0.8"
block2 = "0.6"
clap = { version = "4", features = ["derive"] }
getrandom = "0.3"
libc = "0.2"
notify = "8"
objc2 = "0.6"
objc2-app-kit = "0.3"
objc2-foundation = "0.3"
objc2-web-kit = "0.3"
reqwest = { version = "0.12", default-features = false, features = ["json"] }
serde = { version = "1", features = ["derive"] }
serde_json = "1"
tokio = { version = "1", features = ["full"] }
tower-http = { version = "0.6", features = ["fs"] }
url = "2"
