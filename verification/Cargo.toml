[package]
name = "story_tablet"
version = "0.1.0"
edition = "2021"
publish = false

[dependencies]
enigo = "*"
hidapi = "*"
tungstenite = "*"

[dev-dependencies]
serde_json = "*"
