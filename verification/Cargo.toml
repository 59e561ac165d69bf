[package]
name = "reactor_sim"
version = "0.1.0"
edition = "2021"
publish = false

[dependencies]
base64 = "0.22"
anyhow = "1"
serde = { version = "1", features = ["derive"] }
serde_json = "1"
bevy = { version = "0.15", default-features = false, features = ["bevy_state", "bevy_window", "bevy_asset", "bevy_render", "bevy_core_pipeline", "bevy_sprite", "bevy_text", "bevy_ui"] }
