[package]
name = "hex_arena"
version = "0.1.0"
edition = "2021"
rust-version = "1.95"
publish = false

[dependencies]
petgraph = "=0.8.3"
rustc-hash = "=2.1.3"
bevy = { version = "=0.16.1", default-features = false, features = ["bevy_window", "bevy_render", "bevy_core_pipeline", "bevy_sprite", "bevy_asset", "bevy_text", "bevy_ui", "png"] }
bevy_prototype_lyon = "=0.14.1"
