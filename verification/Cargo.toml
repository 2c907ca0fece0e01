[package]
name = "gravity"
version = "0.1.0"
edition = "2021"
publish = false

[dependencies]
bevy = { version = "=0.18.1", default-features = false }
serde = { version = "=1.0.229", features = ["derive"] }
strum = { version = "=0.28.0", features = ["derive"] }
strum_macros = "=0.28.0"
rand = "=0.10.3"
bytemuck = { version = "=1.25.2", features = ["derive"] }
log = "=0.4.35"
