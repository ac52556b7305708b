[package]
name = "journey"
version = "0.1.0"
edition = "2021"
publish = false

[dependencies]
bevy = { version = "=0.9.1", default-features = false, features = ["bevy_asset", "render"] }
bevy_ecs_tilemap = "=0.9.0"
