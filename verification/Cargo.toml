[package]
name = "pomme_client"
version = "0.1.0"
edition = "2021"
publish = false

[dependencies]
arboard = { version = "=3.7.0", default-features = false }
azalea-chat = { version = "=0.16.0", default-features = false }
azalea-language = "=0.16.0"
base64 = "=0.22.1"
bytemuck = { version = "=1.25.2", features = ["derive"] }
fontdue = "=0.9.5"
glam = { version = "=0.34.2", features = ["bytemuck"] }
image = { version = "=0.25.10", default-features = false, features = ["png"] }
open = "=5.4.5"
parking_lot = "=0.12.5"
pyronyx = "=0.5.0"
reqwest = { version = "=0.12.28", default-features = false, features = ["json"] }
serde = { version = "=1.0.229", features = ["derive"] }
serde_json = "=1.0.154"
tokio = { version = "=1.54.1", features = ["rt-multi-thread", "sync", "time"] }
tracing = "=0.1.44"
uuid = "=1.29.0"
