[package]
name = "ezinput"
version = "0.3.0"
edition = "2021"

[dependencies]
bevy = { version = "0.8", default-features = false, features = ["serialize"] }
serde = { version = "1", features = ["derive"] }
