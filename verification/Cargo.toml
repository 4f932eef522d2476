[package]
name = "adaman_vtt"
version = "0.1.0"
edition = "2021"
publish = false

[dependencies]
base64 = "0.21"
bevy = { version = "0.12", default-features = false }
bevy_matchbox = { version = "0.8", default-features = false }
bevy_pkv = "0.9"
cute-dnd-dice = "4"
postcard = { version = "1", features = ["use-std"] }
serde = { version = "1", features = ["derive"] }
serde_json = "1"
uuid = { version = "1", features = ["v4", "serde"] }
